use crate::download::{
    Download, DownloadStatus, find_download, ids_ascend, lemma_place_from, lemma_place_of_own,
    place_of,
};
use crate::realdebrid::{files_to_show, shown_files};
use crate::selection_keys::cleanup_command;
use crate::session::{App, AppMessage, AppMode, Command, DownloadLink};
use crate::text::{decimal, joined, push_decimal};
use vstd::prelude::*;
use vstd::string::*;

verus! {

/// The download that a link starts as under the identifier `id`: pending,
/// nothing transferred.
pub open spec fn queued(link: DownloadLink, id: u64) -> Download {
    Download {
        id: id,
        url: link.url,
        filename: link.filename,
        dest_path: link.dest_path,
        status: DownloadStatus::Pending,
        total_bytes: 0,
        downloaded_bytes: 0,
        speed: 0,
    }
}

/// How many of `count` links get an identifier when the next one is `next`:
/// all of them, as far as the identifiers go.
pub open spec fn room(next: u64, count: nat) -> nat {
    if next + count <= u64::MAX {
        count
    } else {
        (u64::MAX - next) as nat
    }
}

/// The downloads that the links start as when the next identifier is
/// `next`: one for each link in their order, each with the identifier after
/// that of the one before, as far as the identifiers go.
pub open spec fn queued_links(next: u64, links: Seq<DownloadLink>) -> Seq<Download> {
    Seq::new(room(next, links.len()), |i: int| queued(links[i], (next + i) as u64))
}

/// The session shows the error `e`, its status line led in by `lead`.
pub open spec fn error_shown(pre: App, post: App, lead: Seq<char>, e: String) -> bool {
    &&& post.status@ == lead + e@
    &&& post == (App { status: post.status, mode: AppMode::Error(e), ..pre })
}

/// A resolution failed: the session gives up the remote job, asks for its
/// deletion where it has one, and shows the error `e`, its status line led
/// in by `lead`.
pub open spec fn resolution_failed(
    pre: App,
    post: App,
    cmd: Command,
    lead: Seq<char>,
    e: String,
) -> bool {
    &&& cmd == cleanup_command(pre)
    &&& post.status@ == lead + e@
    &&& post == (App { torrent_id: None, status: post.status, mode: AppMode::Error(e), ..pre })
}

/// The download that the messages for the identifier `id` are about.
pub open spec fn target(pre: App, id: u64) -> Download {
    pre.downloads[place_of(pre.downloads@, id)]
}

/// The download with the identifier `id`, where the list holds it and it is
/// not over yet, became `now`; otherwise nothing changed.
pub open spec fn download_updated(pre: App, post: App, id: u64, now: Download) -> bool {
    let place = place_of(pre.downloads@, id);
    if place < pre.downloads.len() && pre.downloads[place].status.is_active() {
        &&& post.downloads@ == pre.downloads@.update(place, now)
        &&& post == (App { downloads: post.downloads, ..pre })
    } else {
        post == pre
    }
}

/// What a message of a background task does to the session, and the work
/// that the session asks for on its account.
pub open spec fn message_effect(pre: App, msg: AppMessage, post: App, cmd: Command) -> bool {
    match msg {
        AppMessage::SearchResults(results) => {
            &&& cmd is Nothing
            &&& post.status@ == decimal(results.len() as nat) + " results found"@
            &&& post == (App {
                results: results,
                selected_index: 0,
                scroll_offset: 0,
                status: post.status,
                mode: AppMode::Results,
                ..pre
            })
        },
        AppMessage::SearchError(e) => cmd is Nothing && error_shown(
            pre,
            post,
            "Search error: "@,
            e,
        ),
        AppMessage::TorrentFiles(id, files) => {
            &&& cmd is Nothing
            &&& post.files@ == shown_files(files@)
            &&& post.selected_files@ == if post.files.len() == 1 {
                seq![post.files[0].id]
            } else {
                Seq::<u32>::empty()
            }
            &&& post.status@ == decimal(post.files.len() as nat) + " files in torrent"@
            &&& post == (App {
                torrent_id: Some(id),
                files: post.files,
                file_cursor: 0,
                file_scroll_offset: 0,
                selected_files: post.selected_files,
                status: post.status,
                mode: AppMode::FileSelect,
                ..pre
            })
        },
        AppMessage::TorrentError(e) => resolution_failed(pre, post, cmd, "Torrent error: "@, e),
        AppMessage::DownloadLinks(links) => {
            &&& cmd is Nothing
            &&& post.downloads@ == pre.downloads@ + queued_links(pre.next_download_id, links@)
            &&& post.status@ == decimal(post.downloads.len() as nat)
                + " download(s) queued! Press 'd' to view"@
            &&& post == (App {
                downloads: post.downloads,
                next_download_id: (pre.next_download_id + room(
                    pre.next_download_id,
                    links.len() as nat,
                )) as u64,
                status: post.status,
                mode: AppMode::Results,
                ..pre
            })
        },
        AppMessage::DownloadError(e) => resolution_failed(pre, post, cmd, "Download error: "@, e),
        AppMessage::StatusUpdate(s) => cmd is Nothing && post == (App {
            processing_status: s,
            ..pre
        }),
        AppMessage::DownloadProgress { id, downloaded, total, speed } => cmd is Nothing
            && download_updated(
            pre,
            post,
            id,
            Download {
                downloaded_bytes: downloaded,
                total_bytes: total,
                speed: speed,
                status: DownloadStatus::Downloading,
                ..target(pre, id)
            },
        ),
        AppMessage::DownloadComplete(id) => cmd is Nothing && download_updated(
            pre,
            post,
            id,
            Download { status: DownloadStatus::Completed, ..target(pre, id) },
        ),
        AppMessage::DownloadFailed(id, reason) => cmd is Nothing && download_updated(
            pre,
            post,
            id,
            Download { status: DownloadStatus::Failed(reason), ..target(pre, id) },
        ),
    }
}

impl App {
    /// Shows the error `e` and leads the status line in with `lead`.
    fn show_error(&mut self, lead: &str, e: String)
        ensures
            error_shown(*old(self), *final(self), lead@, e),
    {
        self.status = joined(lead, e.as_str());
        self.mode = AppMode::Error(e);
    }

    /// Gives up the remote job, asks for its deletion where there is one, and
    /// shows the error `e`.
    fn fail_resolution(&mut self, lead: &str, e: String) -> (cmd: Command)
        ensures
            resolution_failed(*old(self), *final(self), cmd, lead@, e),
    {
        let cmd = self.cleanup();
        self.torrent_id = None;
        self.status = joined(lead, e.as_str());
        self.mode = AppMode::Error(e);
        cmd
    }

    /// The place of the download with the identifier `id`, where the list
    /// holds it and it is not over yet.
    fn active_place(&self, id: u64) -> (place: Option<usize>)
        ensures
            match place {
                Some(i) => i == place_of(self.downloads@, id) && i < self.downloads.len()
                    && self.downloads[i as int].status.is_active(),
                None => !(place_of(self.downloads@, id) < self.downloads.len()
                    && self.downloads[place_of(self.downloads@, id)].status.is_active()),
            },
    {
        let i = find_download(&self.downloads, id);
        if i < self.downloads.len() && !self.downloads[i].status.terminal() {
            Some(i)
        } else {
            None
        }
    }

    /// Puts `now` in the place of the download at `index`.
    pub(crate) fn replace_download(&mut self, index: usize, now: Download)
        requires
            index < old(self).downloads.len(),
        ensures
            final(self).downloads@ == old(self).downloads@.update(index as int, now),
            *final(self) == (App { downloads: final(self).downloads, ..*old(self) }),
            now.id == old(self).downloads[index as int].id && old(self).wf() ==> final(self).wf(),
    {
        self.downloads.push(now);
        let now = self.downloads.swap_remove(index);
        assert(self.downloads@ =~= old(self).downloads@.update(
            index as int,
            self.downloads@[index as int],
        ));
        proof {
            if self.downloads@[index as int].id == old(self).downloads[index as int].id && old(
                self,
            ).wf() {
                let before = old(self).downloads@;
                let after = self.downloads@;
                assert forall|i: int, j: int| 0 <= i < j < after.len() implies (#[trigger] after[i]).id
                    < (#[trigger] after[j]).id by {
                    assert(after[i].id == before[i].id && after[j].id == before[j].id);
                }
                assert forall|i: int| 0 <= i < after.len() implies (#[trigger] after[i]).id
                    < self.next_download_id by {
                    assert(after[i].id == before[i].id);
                }
            }
        }
    }

    /// Queues one download for each link, as far as the identifiers go.
    fn queue_links(&mut self, links: Vec<DownloadLink>)
        ensures
            final(self).downloads@ == old(self).downloads@ + queued_links(
                old(self).next_download_id,
                links@,
            ),
            *final(self) == (App {
                downloads: final(self).downloads,
                next_download_id: (old(self).next_download_id + room(
                    old(self).next_download_id,
                    links.len() as nat,
                )) as u64,
                ..*old(self)
            }),
            old(self).wf() ==> final(self).wf(),
    {
        let ghost given = links@;
        let ghost before = self.downloads@;
        let ghost first = self.next_download_id;
        let mut rest = crate::lists::reversed(links);
        let ghost mut done: int = 0;
        assert(queued_links(first, given.take(0)) =~= Seq::empty());
        assert(before + Seq::<Download>::empty() =~= before);
        while rest.len() > 0
            invariant
                0 <= done <= given.len(),
                done + rest.len() == given.len(),
                rest@ == given.reverse().take(rest.len() as int),
                first == old(self).next_download_id,
                before == old(self).downloads@,
                self.downloads@ == before + queued_links(first, given.take(done)),
                self.next_download_id == first + room(first, done as nat),
                *self == (App {
                    downloads: self.downloads,
                    next_download_id: self.next_download_id,
                    ..*old(self)
                }),
                old(self).wf() ==> ids_ascend(self.downloads@, self.next_download_id),
            decreases rest.len(),
        {
            let link = rest.pop().unwrap();
            let ghost queue = self.downloads@;
            proof {
                assert(link == given[done]);
                assert(given.take(done + 1).len() == done + 1);
            }
            if self.next_download_id < u64::MAX {
                let id: u64 = self.next_download_id;
                self.next_download_id = id + 1;
                self.downloads.push(
                    Download {
                        id,
                        url: link.url,
                        filename: link.filename,
                        dest_path: link.dest_path,
                        status: DownloadStatus::Pending,
                        total_bytes: 0,
                        downloaded_bytes: 0,
                        speed: 0,
                    },
                );
                proof {
                    assert(room(first, done as nat) == done);
                    assert(queued_links(first, given.take(done + 1)) =~= queued_links(
                        first,
                        given.take(done),
                    ).push(queued(link, id))) by {
                        assert forall|k: int| 0 <= k < done implies given.take(done + 1)[k]
                            == given.take(done)[k] by {}
                    }
                    assert(self.downloads@ =~= before + queued_links(first, given.take(done + 1)));
                    if old(self).wf() {
                        let now = self.downloads@;
                        assert forall|i: int, j: int| 0 <= i < j < now.len() implies (
                        #[trigger] now[i]).id < (#[trigger] now[j]).id by {
                            assert(now[i] == queue[i]);
                            if j < queue.len() {
                                assert(now[j] == queue[j]);
                            }
                        }
                        assert forall|i: int| 0 <= i < now.len() implies (#[trigger] now[i]).id
                            < self.next_download_id by {
                            if i < queue.len() {
                                assert(now[i] == queue[i]);
                            }
                        }
                    }
                }
            } else {
                proof {
                    assert(queued_links(first, given.take(done + 1)) =~= queued_links(
                        first,
                        given.take(done),
                    )) by {
                        assert forall|k: int| 0 <= k < room(first, done as nat) implies given.take(
                            done + 1,
                        )[k] == given.take(done)[k] by {}
                    }
                }
            }
            proof {
                done = done + 1;
            }
        }
        assert(given.take(done) =~= given);
    }

    /// Applies the message of a background task to the session and says what
    /// work the session asks for on its account: the deletion of the remote
    /// job where a resolution failed, and nothing otherwise.
    pub fn handle_message(&mut self, msg: AppMessage) -> (cmd: Command)
        ensures
            message_effect(*old(self), msg, *final(self), cmd),
            old(self).wf() ==> final(self).wf(),
    {
        match msg {
            AppMessage::SearchResults(results) => {
                let mut status = String::new();
                push_decimal(&mut status, results.len() as u64);
                status.append(" results found");
                self.results = results;
                self.selected_index = 0;
                self.scroll_offset = 0;
                self.status = status;
                self.mode = AppMode::Results;
                Command::Nothing
            },
            AppMessage::SearchError(e) => {
                self.show_error("Search error: ", e);
                Command::Nothing
            },
            AppMessage::TorrentFiles(id, files) => {
                self.torrent_id = Some(id);
                self.files = files_to_show(files);
                self.file_cursor = 0;
                self.file_scroll_offset = 0;
                let mut chosen: Vec<u32> = Vec::new();
                if self.files.len() == 1 {
                    chosen.push(self.files[0].id);
                }
                self.selected_files = chosen;
                let mut status = String::new();
                push_decimal(&mut status, self.files.len() as u64);
                status.append(" files in torrent");
                self.status = status;
                self.mode = AppMode::FileSelect;
                Command::Nothing
            },
            AppMessage::TorrentError(e) => self.fail_resolution("Torrent error: ", e),
            AppMessage::DownloadLinks(links) => {
                self.queue_links(links);
                let mut status = String::new();
                push_decimal(&mut status, self.downloads.len() as u64);
                status.append(" download(s) queued! Press 'd' to view");
                self.status = status;
                self.mode = AppMode::Results;
                Command::Nothing
            },
            AppMessage::DownloadError(e) => self.fail_resolution("Download error: ", e),
            AppMessage::StatusUpdate(s) => {
                self.processing_status = s;
                Command::Nothing
            },
            AppMessage::DownloadProgress { id, downloaded, total, speed } => {
                match self.active_place(id) {
                    Some(place) => {
                        let mut now = self.downloads[place].clone();
                        now.downloaded_bytes = downloaded;
                        now.total_bytes = total;
                        now.speed = speed;
                        now.status = DownloadStatus::Downloading;
                        self.replace_download(place, now);
                    },
                    None => {},
                }
                Command::Nothing
            },
            AppMessage::DownloadComplete(id) => {
                match self.active_place(id) {
                    Some(place) => {
                        let mut now = self.downloads[place].clone();
                        now.status = DownloadStatus::Completed;
                        self.replace_download(place, now);
                    },
                    None => {},
                }
                Command::Nothing
            },
            AppMessage::DownloadFailed(id, reason) => {
                match self.active_place(id) {
                    Some(place) => {
                        let mut now = self.downloads[place].clone();
                        now.status = DownloadStatus::Failed(reason);
                        self.replace_download(place, now);
                    },
                    None => {},
                }
                Command::Nothing
            },
        }
    }
}

/// A download may go from the status `before` to the status `after`: it
/// stays as it is, or leaves the waiting for its start, or ends while it is
/// being transferred. A status that ends a download is never left.
pub open spec fn may_follow(before: DownloadStatus, after: DownloadStatus) -> bool {
    ||| after == before
    ||| before is Pending && !(after is Pending)
    ||| before is Downloading && after.is_terminal()
}

/// No message takes a download off the list or moves it, and the status of
/// each download only goes forward: a download that completed, failed or was
/// cancelled stays exactly as it is.
pub proof fn lemma_messages_keep_downloads(
    pre: App,
    msg: AppMessage,
    post: App,
    cmd: Command,
    i: int,
)
    requires
        message_effect(pre, msg, post, cmd),
        0 <= i < pre.downloads.len(),
    ensures
        i < post.downloads.len(),
        may_follow(pre.downloads[i].status, post.downloads[i].status),
        pre.downloads[i].status.is_terminal() ==> post.downloads[i] == pre.downloads[i],
        post.downloads[i].id == pre.downloads[i].id,
        post.downloads[i].url == pre.downloads[i].url,
        post.downloads[i].dest_path == pre.downloads[i].dest_path,
{
    match msg {
        AppMessage::DownloadProgress { id, .. } => {
            lemma_place_from(pre.downloads@, id, 0);
        },
        AppMessage::DownloadComplete(id) => {
            lemma_place_from(pre.downloads@, id, 0);
        },
        AppMessage::DownloadFailed(id, _) => {
            lemma_place_from(pre.downloads@, id, 0);
        },
        _ => {},
    }
}

/// A download is written by the messages of its own task, and by them only:
/// in a well-formed session a message for an identifier reaches the download
/// with that identifier, wherever in the list it stands, and leaves every
/// other download as it is.
pub proof fn lemma_message_reaches_its_download(
    pre: App,
    msg: AppMessage,
    post: App,
    cmd: Command,
    i: int,
)
    requires
        pre.wf(),
        message_effect(pre, msg, post, cmd),
        0 <= i < pre.downloads.len(),
    ensures
        i < post.downloads.len(),
        match msg {
            AppMessage::DownloadProgress { id, downloaded, total, speed } => post.downloads[i]
                == if pre.downloads[i].id == id && pre.downloads[i].status.is_active() {
                Download {
                    downloaded_bytes: downloaded,
                    total_bytes: total,
                    speed: speed,
                    status: DownloadStatus::Downloading,
                    ..pre.downloads[i]
                }
            } else {
                pre.downloads[i]
            },
            AppMessage::DownloadComplete(id) => post.downloads[i] == if pre.downloads[i].id == id
                && pre.downloads[i].status.is_active() {
                Download { status: DownloadStatus::Completed, ..pre.downloads[i] }
            } else {
                pre.downloads[i]
            },
            AppMessage::DownloadFailed(id, reason) => post.downloads[i] == if pre.downloads[i].id
                == id && pre.downloads[i].status.is_active() {
                Download { status: DownloadStatus::Failed(reason), ..pre.downloads[i] }
            } else {
                pre.downloads[i]
            },
            _ => post.downloads[i] == pre.downloads[i],
        },
{
    lemma_place_of_own(pre.downloads@, pre.next_download_id, i);
    match msg {
        AppMessage::DownloadProgress { id, .. } => {
            lemma_place_from(pre.downloads@, id, 0);
        },
        AppMessage::DownloadComplete(id) => {
            lemma_place_from(pre.downloads@, id, 0);
        },
        AppMessage::DownloadFailed(id, _) => {
            lemma_place_from(pre.downloads@, id, 0);
        },
        _ => {},
    }
}

/// What the messages of an inbox do to the session, applied one after the
/// other in the order in which they came, with the work that each asks for.
pub open spec fn inbox_effect(
    pre: App,
    msgs: Seq<AppMessage>,
    post: App,
    cmds: Seq<Command>,
) -> bool
    decreases msgs.len(),
{
    &&& cmds.len() == msgs.len()
    &&& if msgs.len() == 0 {
        post == pre
    } else {
        exists|mid: App|
            inbox_effect(pre, msgs.drop_last(), mid, cmds.drop_last()) && message_effect(
                mid,
                msgs.last(),
                post,
                cmds.last(),
            )
    }
}

impl App {
    /// Applies the messages that were waiting in the inbox, one after the
    /// other in the order in which they came, and gives the work that each
    /// asks for, in the same order.
    pub fn drain_inbox(&mut self, msgs: Vec<AppMessage>) -> (cmds: Vec<Command>)
        ensures
            inbox_effect(*old(self), msgs@, *final(self), cmds@),
            old(self).wf() ==> final(self).wf(),
    {
        let ghost all = msgs@;
        let mut rest = crate::lists::reversed(msgs);
        let mut cmds: Vec<Command> = Vec::new();
        let ghost mut done: int = 0;
        assert(all.take(0) =~= Seq::empty());
        while rest.len() > 0
            invariant
                0 <= done <= all.len(),
                done + rest.len() == all.len(),
                rest@ == all.reverse().take(rest.len() as int),
                inbox_effect(*old(self), all.take(done), *self, cmds@),
                old(self).wf() ==> self.wf(),
            decreases rest.len(),
        {
            let msg = rest.pop().unwrap();
            let ghost mid = *self;
            let ghost before = cmds@;
            let cmd = self.handle_message(msg);
            cmds.push(cmd);
            proof {
                assert(msg == all[done]);
                assert(all.take(done + 1).drop_last() =~= all.take(done));
                assert(all.take(done + 1).last() == msg);
                assert(cmds@.drop_last() =~= before);
                assert(cmds@.last() == cmd);
                assert(inbox_effect(
                    *old(self),
                    all.take(done + 1).drop_last(),
                    mid,
                    cmds@.drop_last(),
                ) && message_effect(mid, all.take(done + 1).last(), *self, cmds@.last()));
                done = done + 1;
            }
        }
        assert(all.take(done) =~= all);
        cmds
    }
}

/// Whatever messages an inbox holds, draining it takes no download off the
/// list and leaves every download that completed, failed or was cancelled
/// exactly as it is.
pub proof fn lemma_inbox_keeps_downloads(
    pre: App,
    msgs: Seq<AppMessage>,
    post: App,
    cmds: Seq<Command>,
    i: int,
)
    requires
        inbox_effect(pre, msgs, post, cmds),
        0 <= i < pre.downloads.len(),
    ensures
        i < post.downloads.len(),
        may_follow(pre.downloads[i].status, post.downloads[i].status),
        pre.downloads[i].status.is_terminal() ==> post.downloads[i] == pre.downloads[i],
        post.downloads[i].id == pre.downloads[i].id,
    decreases msgs.len(),
{
    if msgs.len() > 0 {
        let mid = choose|mid: App|
            inbox_effect(pre, msgs.drop_last(), mid, cmds.drop_last()) && message_effect(
                mid,
                msgs.last(),
                post,
                cmds.last(),
            );
        lemma_inbox_keeps_downloads(pre, msgs.drop_last(), mid, cmds.drop_last(), i);
        lemma_messages_keep_downloads(mid, msgs.last(), post, cmds.last(), i);
    }
}

} // verus!
