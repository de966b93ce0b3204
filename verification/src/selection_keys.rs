use crate::editing::{step_down, step_up, stepped_down, stepped_up};
use crate::lists::copy_ids;
use crate::realdebrid::TorrentFile;
use crate::search_keys::only_status;
use crate::selection::{
    find_id, lemma_without_repeats, texts, toggle_id, toggle_text, toggled, without_repeats,
};
use crate::session::{
    App, AppMode, Command, Key, SCRAPER_COUNT, all_scrapers, lemma_scrapers_distinct, scraper_name,
    scrapers,
};
use crate::text::{decimal, push_decimal};
use vstd::prelude::*;
use vstd::string::*;

verus! {

/// The identifiers of `files`, in their order.
pub open spec fn file_ids(files: Seq<TorrentFile>) -> Seq<u32> {
    files.map_values(|f: TorrentFile| f.id)
}

/// The identifiers of `files`, each once.
pub fn all_file_ids(files: &Vec<TorrentFile>) -> (ids: Vec<u32>)
    ensures
        ids@ == without_repeats(file_ids(files@)),
        ids@.no_duplicates(),
{
    let ghost all = file_ids(files@);
    let mut ids: Vec<u32> = Vec::new();
    let mut i: usize = 0;
    assert(all.take(0) =~= Seq::empty());
    while i < files.len()
        invariant
            i <= files.len(),
            all == file_ids(files@),
            ids@ == without_repeats(all.take(i as int)),
        decreases files.len() - i,
    {
        proof {
            assert(all.take(i + 1).drop_last() =~= all.take(i as int));
            assert(all.take(i + 1).last() == files@[i as int].id);
        }
        if find_id(&ids, files[i].id).is_none() {
            ids.push(files[i].id);
        }
        i += 1;
    }
    proof {
        assert(all.take(files.len() as int) =~= all);
        lemma_without_repeats(all);
    }
    ids
}

/// The command that deletes the session's remote job, where it has one and
/// the service is configured.
pub open spec fn cleanup_command(pre: App) -> Command {
    if pre.rd_configured && pre.torrent_id is Some {
        Command::DeleteTorrent { torrent_id: pre.torrent_id->0 }
    } else {
        Command::Nothing
    }
}

/// What Enter does on the file selection screen.
pub open spec fn files_enter_effect(pre: App, post: App, cmd: Command) -> bool {
    if pre.selected_files.len() == 0 {
        cmd is Nothing && only_status(pre, post, "No files selected"@)
    } else if pre.rd_configured && pre.torrent_id is Some {
        &&& cmd matches Command::ResolveFiles { torrent_id, file_ids }
        &&& torrent_id == pre.torrent_id->0
        &&& file_ids@ == pre.selected_files@
        &&& post.processing_status@ == "Getting download links..."@
        &&& post == (App {
            processing_status: post.processing_status,
            mode: AppMode::Processing,
            ..pre
        })
    } else {
        cmd is Nothing && post == pre
    }
}

/// What a key does on the file selection screen.
pub open spec fn file_select_key_effect(pre: App, key: Key, post: App, cmd: Command) -> bool {
    let cursor = pre.file_cursor as int;
    let scroll = pre.file_scroll_offset as int;
    let len = pre.files.len() as int;
    match key {
        Key::Up | Key::Char('k') => cmd is Nothing && post == (App {
            file_cursor: stepped_up(cursor, scroll).0 as usize,
            file_scroll_offset: stepped_up(cursor, scroll).1 as usize,
            ..pre
        }),
        Key::Down | Key::Char('j') => cmd is Nothing && post == (App {
            file_cursor: stepped_down(cursor, scroll, len).0 as usize,
            file_scroll_offset: stepped_down(cursor, scroll, len).1 as usize,
            ..pre
        }),
        Key::Char(' ') => cmd is Nothing && if cursor < len {
            &&& post.selected_files@ == toggled(pre.selected_files@, pre.files[cursor].id)
            &&& post == (App { selected_files: post.selected_files, ..pre })
        } else {
            post == pre
        },
        Key::Char('a') => {
            &&& cmd is Nothing
            &&& post.selected_files@ == if pre.selected_files.len() == pre.files.len() {
                Seq::<u32>::empty()
            } else {
                without_repeats(file_ids(pre.files@))
            }
            &&& post == (App { selected_files: post.selected_files, ..pre })
        },
        Key::Enter => files_enter_effect(pre, post, cmd),
        Key::Esc | Key::Char('q') => {
            &&& cmd == cleanup_command(pre)
            &&& post.files@ == Seq::<TorrentFile>::empty()
            &&& post.selected_files@ == Seq::<u32>::empty()
            &&& post == (App {
                torrent_id: None,
                files: post.files,
                selected_files: post.selected_files,
                mode: AppMode::Results,
                ..pre
            })
        },
        _ => cmd is Nothing && post == pre,
    }
}

/// What a key does on the source selection screen.
pub open spec fn source_select_key_effect(pre: App, key: Key, post: App) -> bool {
    let cursor = pre.source_cursor as int;
    match key {
        Key::Up | Key::Char('k') => post == (App {
            source_cursor: (if cursor > 0 { cursor - 1 } else { cursor }) as usize,
            ..pre
        }),
        Key::Down | Key::Char('j') => post == (App {
            source_cursor: (if cursor < SCRAPER_COUNT - 1 { cursor + 1 } else { cursor }) as usize,
            ..pre
        }),
        Key::Char(' ') => {
            &&& texts(post.enabled_sources@) == toggled(texts(pre.enabled_sources@), scrapers()[cursor])
            &&& post == (App { enabled_sources: post.enabled_sources, ..pre })
        },
        Key::Char('a') => {
            &&& texts(post.enabled_sources@) == scrapers()
            &&& post == (App { enabled_sources: post.enabled_sources, ..pre })
        },
        Key::Char('n') => {
            &&& post.enabled_sources@ == Seq::<String>::empty()
            &&& post == (App { enabled_sources: post.enabled_sources, ..pre })
        },
        Key::Enter => if pre.enabled_sources.len() > 0 {
            &&& post.status@ == decimal(pre.enabled_sources.len() as nat) + " sources enabled"@
            &&& post == (App { status: post.status, mode: AppMode::Search, ..pre })
        } else {
            only_status(pre, post, "At least one source must be enabled"@)
        },
        Key::Esc | Key::Char('q') => post == (App { mode: AppMode::Search, ..pre }),
        _ => post == pre,
    }
}

impl App {
    /// The command that deletes the session's remote job, where it has one
    /// and the service is configured.
    pub(crate) fn cleanup(&self) -> (cmd: Command)
        ensures
            cmd == cleanup_command(*self),
    {
        if self.rd_configured {
            match &self.torrent_id {
                Some(id) => Command::DeleteTorrent { torrent_id: id.clone() },
                None => Command::Nothing,
            }
        } else {
            Command::Nothing
        }
    }

    /// Applies a key press on the file selection screen and says what work it
    /// asks for.
    pub fn handle_file_select_keys(&mut self, key: Key) -> (cmd: Command)
        requires
            old(self).wf(),
        ensures
            final(self).wf(),
            file_select_key_effect(*old(self), key, *final(self), cmd),
    {
        let len: usize = self.files.len();
        match key {
            Key::Up | Key::Char('k') => {
                let (c, s) = step_up(self.file_cursor, self.file_scroll_offset);
                self.file_cursor = c;
                self.file_scroll_offset = s;
                Command::Nothing
            },
            Key::Down | Key::Char('j') => {
                let (c, s) = step_down(self.file_cursor, self.file_scroll_offset, len);
                self.file_cursor = c;
                self.file_scroll_offset = s;
                Command::Nothing
            },
            Key::Char(' ') => {
                if self.file_cursor < len {
                    let id: u32 = self.files[self.file_cursor].id;
                    toggle_id(&mut self.selected_files, id);
                }
                Command::Nothing
            },
            Key::Char('a') => {
                if self.selected_files.len() == len {
                    self.selected_files = Vec::new();
                } else {
                    self.selected_files = all_file_ids(&self.files);
                }
                Command::Nothing
            },
            Key::Enter => {
                if self.selected_files.len() == 0 {
                    self.status = String::from_str("No files selected");
                    Command::Nothing
                } else if self.rd_configured && self.torrent_id.is_some() {
                    let torrent_id = match &self.torrent_id {
                        Some(id) => id.clone(),
                        None => String::new(),
                    };
                    let file_ids = copy_ids(&self.selected_files);
                    self.mode = AppMode::Processing;
                    self.processing_status = String::from_str("Getting download links...");
                    Command::ResolveFiles { torrent_id, file_ids }
                } else {
                    Command::Nothing
                }
            },
            Key::Esc | Key::Char('q') => {
                let cmd = self.cleanup();
                self.torrent_id = None;
                self.files = Vec::new();
                self.selected_files = Vec::new();
                self.mode = AppMode::Results;
                cmd
            },
            _ => Command::Nothing,
        }
    }

    /// Applies a key press on the source selection screen.
    pub fn handle_source_select_keys(&mut self, key: Key)
        requires
            old(self).wf(),
        ensures
            final(self).wf(),
            source_select_key_effect(*old(self), key, *final(self)),
    {
        match key {
            Key::Up | Key::Char('k') => {
                if self.source_cursor > 0 {
                    self.source_cursor -= 1;
                }
            },
            Key::Down | Key::Char('j') => {
                if self.source_cursor < SCRAPER_COUNT - 1 {
                    self.source_cursor += 1;
                }
            },
            Key::Char(' ') => {
                toggle_text(&mut self.enabled_sources, scraper_name(self.source_cursor));
            },
            Key::Char('a') => {
                self.enabled_sources = all_scrapers();
                proof {
                    lemma_scrapers_distinct();
                }
            },
            Key::Char('n') => {
                self.enabled_sources = Vec::new();
            },
            Key::Enter => {
                if self.enabled_sources.len() > 0 {
                    let mut status = String::new();
                    push_decimal(&mut status, self.enabled_sources.len() as u64);
                    status.append(" sources enabled");
                    self.status = status;
                    self.mode = AppMode::Search;
                } else {
                    self.status = String::from_str("At least one source must be enabled");
                }
            },
            Key::Esc | Key::Char('q') => {
                self.mode = AppMode::Search;
            },
            _ => {},
        }
    }
}

} // verus!
