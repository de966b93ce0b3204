use crate::download::{Download, DownloadStatus, ids_ascend};
use crate::editing::last_place;
use crate::inbox::{lemma_message_reaches_its_download, message_effect};
use crate::session::{App, AppMessage, AppMode, Command, DownloadJob, Key};
use vstd::prelude::*;
use vstd::string::*;

verus! {

/// The download `d` once it was started, where it was pending.
pub open spec fn started(d: Download) -> Download {
    if d.status is Pending {
        Download { status: DownloadStatus::Downloading, ..d }
    } else {
        d
    }
}

/// The download `d` once it was cancelled, where it was not over yet.
pub open spec fn cancelled(d: Download) -> Download {
    if d.status.is_active() {
        Download { status: DownloadStatus::Cancelled, ..d }
    } else {
        d
    }
}

/// The work that starts the download `d`: it carries the identifier of the
/// download, by which the messages of its task find it again.
pub open spec fn job_for(d: Download) -> DownloadJob {
    DownloadJob { id: d.id, url: d.url, dest_path: d.dest_path }
}

/// One job for each pending download of the list, in the order of the list.
pub open spec fn pending_jobs(downloads: Seq<Download>) -> Seq<DownloadJob>
    decreases downloads.len(),
{
    if downloads.len() == 0 {
        Seq::empty()
    } else {
        let front = pending_jobs(downloads.drop_last());
        if downloads.last().status is Pending {
            front.push(job_for(downloads.last()))
        } else {
            front
        }
    }
}

/// The downloads of the list that are not over yet, in their order.
pub open spec fn active_downloads(downloads: Seq<Download>) -> Seq<Download> {
    downloads.filter(|d: Download| d.status.is_active())
}

/// `cmd` starts exactly the downloads `jobs`.
pub open spec fn starts(cmd: Command, jobs: Seq<DownloadJob>) -> bool {
    cmd matches Command::StartDownloads { jobs: j } && j@ == jobs
}

/// What a key does on the downloads screen.
pub open spec fn downloads_key_effect(pre: App, key: Key, post: App, cmd: Command) -> bool {
    let cursor = pre.download_cursor as int;
    let len = pre.downloads.len() as int;
    let list = pre.downloads@;
    match key {
        Key::Up | Key::Char('k') => cmd is Nothing && post == (App {
            download_cursor: (if cursor > 0 { cursor - 1 } else { cursor }) as usize,
            ..pre
        }),
        Key::Down | Key::Char('j') => cmd is Nothing && post == (App {
            download_cursor: (if cursor < last_place(len) { cursor + 1 } else { cursor }) as usize,
            ..pre
        }),
        Key::Char('s') => if cursor < len && list[cursor].status is Pending {
            &&& starts(cmd, seq![job_for(list[cursor])])
            &&& post.downloads@ == list.update(cursor, started(list[cursor]))
            &&& post == (App { downloads: post.downloads, ..pre })
        } else {
            cmd is Nothing && post == pre
        },
        Key::Char('S') => {
            &&& starts(cmd, pending_jobs(list))
            &&& post.downloads@ == list.map_values(|d: Download| started(d))
            &&& post == (App { downloads: post.downloads, ..pre })
        },
        Key::Char('c') => cmd is Nothing && if cursor < len && list[cursor].status.is_active() {
            &&& post.downloads@ == list.update(cursor, cancelled(list[cursor]))
            &&& post == (App { downloads: post.downloads, ..pre })
        } else {
            post == pre
        },
        Key::Char('C') => {
            &&& cmd is Nothing
            &&& post.downloads@ == list.map_values(|d: Download| cancelled(d))
            &&& post == (App { downloads: post.downloads, ..pre })
        },
        Key::Char('x') => {
            &&& cmd is Nothing
            &&& post.downloads@ == active_downloads(list)
            &&& post == (App {
                downloads: post.downloads,
                download_cursor: (if cursor >= post.downloads.len() {
                    last_place(post.downloads.len() as int)
                } else {
                    cursor
                }) as usize,
                ..pre
            })
        },
        Key::Esc | Key::Char('q') => cmd is Nothing && post == (App {
            mode: if pre.results.len() == 0 {
                AppMode::Search
            } else {
                AppMode::Results
            },
            ..pre
        }),
        _ => cmd is Nothing && post == pre,
    }
}

/// Taking downloads off a list leaves the identifiers of the others going up
/// from place to place.
pub proof fn lemma_filter_keeps_ids(
    downloads: Seq<Download>,
    pred: spec_fn(Download) -> bool,
    bound: u64,
)
    requires
        ids_ascend(downloads, bound),
    ensures
        ids_ascend(downloads.filter(pred), bound),
    decreases downloads.len(),
{
    if downloads.len() == 0 {
        assert(downloads.filter(pred).len() == 0) by {
            downloads.lemma_filter_len(pred);
        }
    } else {
        let front = downloads.drop_last();
        let last = downloads.last();
        assert(downloads =~= front.push(last));
        assert(ids_ascend(front, last.id)) by {
            assert forall|i: int, j: int| 0 <= i < j < front.len() implies (#[trigger] front[i]).id
                < (#[trigger] front[j]).id by {
                assert(front[i] == downloads[i] && front[j] == downloads[j]);
            }
            assert forall|i: int| 0 <= i < front.len() implies (#[trigger] front[i]).id
                < last.id by {
                assert(front[i] == downloads[i]);
                assert(downloads[i].id < downloads[downloads.len() - 1].id);
            }
        }
        lemma_filter_keeps_ids(front, pred, last.id);
        front.lemma_filter_push(last, pred);
        let kept = front.filter(pred);
        let all = downloads.filter(pred);
        assert forall|i: int, j: int| 0 <= i < j < all.len() implies (#[trigger] all[i]).id < (
        #[trigger] all[j]).id by {
            if j < kept.len() {
                assert(all[i] == kept[i] && all[j] == kept[j]);
            } else {
                assert(all[i] == kept[i]);
            }
        }
        assert forall|i: int| 0 <= i < all.len() implies (#[trigger] all[i]).id < bound by {
            if i < kept.len() {
                assert(all[i] == kept[i]);
            }
        }
    }
}

impl App {
    /// Marks the download at place `index` as started and gives the work that
    /// starts it.
    fn mark_started(&mut self, index: usize) -> (job: DownloadJob)
        requires
            index < old(self).downloads.len(),
            old(self).downloads[index as int].status is Pending,
        ensures
            job == job_for(old(self).downloads[index as int]),
            final(self).downloads@ == old(self).downloads@.update(
                index as int,
                started(old(self).downloads[index as int]),
            ),
            *final(self) == (App { downloads: final(self).downloads, ..*old(self) }),
            old(self).wf() ==> final(self).wf(),
    {
        let mut now = self.downloads[index].clone();
        now.status = DownloadStatus::Downloading;
        let job = DownloadJob { id: now.id, url: now.url.clone(), dest_path: now.dest_path.clone() };
        self.replace_download(index, now);
        job
    }

    /// Marks the download at place `index` as cancelled.
    fn mark_cancelled(&mut self, index: usize)
        requires
            index < old(self).downloads.len(),
            old(self).downloads[index as int].status.is_active(),
        ensures
            final(self).downloads@ == old(self).downloads@.update(
                index as int,
                cancelled(old(self).downloads[index as int]),
            ),
            *final(self) == (App { downloads: final(self).downloads, ..*old(self) }),
            old(self).wf() ==> final(self).wf(),
    {
        let mut now = self.downloads[index].clone();
        now.status = DownloadStatus::Cancelled;
        self.replace_download(index, now);
    }

    /// Starts every pending download of the list.
    fn start_all(&mut self) -> (jobs: Vec<DownloadJob>)
        ensures
            jobs@ == pending_jobs(old(self).downloads@),
            final(self).downloads@ == old(self).downloads@.map_values(|d: Download| started(d)),
            *final(self) == (App { downloads: final(self).downloads, ..*old(self) }),
            old(self).wf() ==> final(self).wf(),
    {
        let ghost list = self.downloads@;
        let mut jobs: Vec<DownloadJob> = Vec::new();
        let mut i: usize = 0;
        assert(list.take(0) =~= Seq::empty());
        while i < self.downloads.len()
            invariant
                i <= self.downloads.len(),
                self.downloads.len() == list.len(),
                list == old(self).downloads@,
                forall|k: int| 0 <= k < i ==> self.downloads@[k] == started(#[trigger] list[k]),
                forall|k: int| i <= k < list.len() ==> self.downloads@[k] == #[trigger] list[k],
                jobs@ == pending_jobs(list.take(i as int)),
                *self == (App { downloads: self.downloads, ..*old(self) }),
                old(self).wf() ==> self.wf(),
            decreases self.downloads.len() - i,
        {
            proof {
                assert(list.take(i + 1).drop_last() =~= list.take(i as int));
                assert(list.take(i + 1).last() == list[i as int]);
            }
            if self.downloads[i].status.pending() {
                let job = self.mark_started(i);
                jobs.push(job);
            }
            i += 1;
        }
        assert(list.take(list.len() as int) =~= list);
        assert(self.downloads@ =~= list.map_values(|d: Download| started(d)));
        jobs
    }

    /// Cancels every download of the list that is not over yet.
    fn cancel_all(&mut self)
        ensures
            final(self).downloads@ == old(self).downloads@.map_values(|d: Download| cancelled(d)),
            *final(self) == (App { downloads: final(self).downloads, ..*old(self) }),
            old(self).wf() ==> final(self).wf(),
    {
        let ghost list = self.downloads@;
        let mut i: usize = 0;
        while i < self.downloads.len()
            invariant
                i <= self.downloads.len(),
                self.downloads.len() == list.len(),
                list == old(self).downloads@,
                forall|k: int| 0 <= k < i ==> self.downloads@[k] == cancelled(#[trigger] list[k]),
                forall|k: int| i <= k < list.len() ==> self.downloads@[k] == #[trigger] list[k],
                *self == (App { downloads: self.downloads, ..*old(self) }),
                old(self).wf() ==> self.wf(),
            decreases self.downloads.len() - i,
        {
            if !self.downloads[i].status.terminal() {
                self.mark_cancelled(i);
            }
            i += 1;
        }
        assert(self.downloads@ =~= list.map_values(|d: Download| cancelled(d)));
    }

    /// Drops the downloads that are over from the list.
    fn clear_finished(&mut self)
        ensures
            final(self).downloads@ == active_downloads(old(self).downloads@),
            *final(self) == (App { downloads: final(self).downloads, ..*old(self) }),
            old(self).wf() ==> final(self).wf(),
    {
        let ghost list = self.downloads@;
        let ghost pred = |d: Download| d.status.is_active();
        let mut all: Vec<Download> = Vec::new();
        std::mem::swap(&mut self.downloads, &mut all);
        let mut rest = crate::lists::reversed(all);
        let ghost mut done: int = 0;
        assert(list.take(0) =~= Seq::empty());
        while rest.len() > 0
            invariant
                0 <= done <= list.len(),
                done + rest.len() == list.len(),
                rest@ == list.reverse().take(rest.len() as int),
                pred == |d: Download| d.status.is_active(),
                self.downloads@ == list.take(done).filter(pred),
                *self == (App { downloads: self.downloads, ..*old(self) }),
            decreases rest.len(),
        {
            let d = rest.pop().unwrap();
            proof {
                assert(d == list[done]);
                assert(list.take(done + 1) =~= list.take(done).push(d));
                list.take(done).lemma_filter_push(d, pred);
                done = done + 1;
            }
            if !d.status.terminal() {
                self.downloads.push(d);
            }
        }
        assert(list.take(done) =~= list);
        proof {
            if old(self).wf() {
                lemma_filter_keeps_ids(list, pred, self.next_download_id);
            }
        }
    }

    /// Applies a key press on the downloads screen and says what work it asks
    /// for.
    pub fn handle_downloads_keys(&mut self, key: Key) -> (cmd: Command)
        ensures
            downloads_key_effect(*old(self), key, *final(self), cmd),
            old(self).wf() ==> final(self).wf(),
    {
        let len: usize = self.downloads.len();
        let cursor: usize = self.download_cursor;
        match key {
            Key::Up | Key::Char('k') => {
                if cursor > 0 {
                    self.download_cursor = cursor - 1;
                }
                Command::Nothing
            },
            Key::Down | Key::Char('j') => {
                if len > 0 && cursor < len - 1 {
                    self.download_cursor = cursor + 1;
                }
                Command::Nothing
            },
            Key::Char('s') => {
                if cursor < len && self.downloads[cursor].status.pending() {
                    let job = self.mark_started(cursor);
                    let mut jobs: Vec<DownloadJob> = Vec::new();
                    jobs.push(job);
                    Command::StartDownloads { jobs }
                } else {
                    Command::Nothing
                }
            },
            Key::Char('S') => {
                let jobs = self.start_all();
                Command::StartDownloads { jobs }
            },
            Key::Char('c') => {
                if cursor < len && !self.downloads[cursor].status.terminal() {
                    self.mark_cancelled(cursor);
                }
                Command::Nothing
            },
            Key::Char('C') => {
                self.cancel_all();
                Command::Nothing
            },
            Key::Char('x') => {
                self.clear_finished();
                let left: usize = self.downloads.len();
                if cursor >= left {
                    self.download_cursor = if left > 0 { left - 1 } else { 0 };
                }
                Command::Nothing
            },
            Key::Esc | Key::Char('q') => {
                if self.results.len() == 0 {
                    self.mode = AppMode::Search;
                } else {
                    self.mode = AppMode::Results;
                }
                Command::Nothing
            },
            _ => Command::Nothing,
        }
    }
}

/// Clearing the list takes off the downloads that are over and keeps the
/// others in their order, each as it was.
pub proof fn lemma_clearing_keeps_active(pre: App, post: App, cmd: Command)
    requires
        downloads_key_effect(pre, Key::Char('x'), post, cmd),
    ensures
        forall|j: int|
            0 <= j < post.downloads.len() ==> (#[trigger] post.downloads[j]).status.is_active()
                && pre.downloads@.contains(post.downloads[j]),
        forall|i: int|
            0 <= i < pre.downloads.len() && (#[trigger] pre.downloads[i]).status.is_active()
                ==> post.downloads@.contains(pre.downloads[i]),
{
    let pred = |d: Download| d.status.is_active();
    let list = pre.downloads@;
    let kept = list.filter(pred);
    assert(post.downloads@ == kept);
    assert forall|j: int| 0 <= j < post.downloads.len() implies (#[trigger] post.downloads[j])
        .status.is_active() && list.contains(post.downloads[j]) by {
        list.lemma_filter_pred(pred, j);
        assert(kept[j] == post.downloads[j]);
        assert(kept.contains(kept[j]));
        list.lemma_filter_contains_rev(pred, kept[j]);
    }
    assert forall|i: int|
        0 <= i < pre.downloads.len() && (#[trigger] pre.downloads[i]).status.is_active()
        implies post.downloads@.contains(pre.downloads[i]) by {
        list.lemma_filter_contains(pred, i);
    }
}

/// Clearing the list does not part a download from its task: a download
/// that was not over when the list was cleared is still reached by the
/// completion that its task sends afterwards, wherever it now stands.
pub proof fn lemma_clearing_keeps_tasks(
    pre: App,
    mid: App,
    cleared: Command,
    post: App,
    cmd: Command,
    i: int,
)
    requires
        pre.wf(),
        0 <= i < pre.downloads.len(),
        pre.downloads[i].status.is_active(),
        downloads_key_effect(pre, Key::Char('x'), mid, cleared),
        message_effect(mid, AppMessage::DownloadComplete(pre.downloads[i].id), post, cmd),
    ensures
        mid.wf(),
        post.downloads@.contains(
            Download { status: DownloadStatus::Completed, ..pre.downloads[i] },
        ),
{
    let pred = |d: Download| d.status.is_active();
    lemma_filter_keeps_ids(pre.downloads@, pred, pre.next_download_id);
    lemma_clearing_keeps_active(pre, mid, cleared);
    assert(mid.downloads@.contains(pre.downloads[i]));
    let j = choose|j: int| 0 <= j < mid.downloads.len() && mid.downloads@[j] == pre.downloads[i];
    lemma_message_reaches_its_download(
        mid,
        AppMessage::DownloadComplete(pre.downloads[i].id),
        post,
        cmd,
        j,
    );
    assert(post.downloads@[j] == (Download {
        status: DownloadStatus::Completed,
        ..pre.downloads[i]
    }));
}

} // verus!
