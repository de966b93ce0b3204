use crate::session::AppMessage;
use vstd::prelude::*;
use vstd::string::*;

verus! {

/// The least time between two progress reports, in nanoseconds.
pub const REPORT_INTERVAL_NANOS: u64 = 100_000_000;

/// The number of nanoseconds in a second.
pub const NANOS_PER_SEC: u64 = 1_000_000_000;

/// Where a transfer stands.
#[derive(Clone, Copy, Debug, PartialEq, Eq, Structural)]
pub enum TransferPhase {
    /// The request was sent; the answer is awaited.
    Connecting,
    /// The body is being copied to disk.
    Copying,
    /// The transfer completed or failed; nothing more is reported.
    Done,
}

/// What happened to a transfer. Times are readings of one clock that does
/// not go back, in nanoseconds.
#[derive(Debug)]
pub enum TransferEvent {
    /// The answer came and the file was created; the length is the declared
    /// one, if any.
    Opened { content_length: Option<u64>, now: u64 },
    /// A chunk of `len` bytes was written to the file.
    Chunk { len: u64, now: u64 },
    /// The body ended and the file was synced to disk.
    Finished,
    /// The request, the file or the stream failed.
    Failed(String),
}

/// The account of one transfer: it counts what was written and says when
/// the session is to hear of it.
#[derive(Debug)]
pub struct DownloadTracker {
    /// The identifier of the download in the session's list.
    pub id: u64,
    pub phase: TransferPhase,
    /// The declared size in bytes; 0 where none was declared.
    pub total: u64,
    /// The bytes written so far.
    pub downloaded: u64,
    /// The time of the last progress report, or of the opening.
    pub last_update: u64,
    /// The bytes written at the last progress report.
    pub last_downloaded: u64,
}

/// The transfer rate for `delta` bytes in `nanos` nanoseconds, in whole
/// bytes per second and at most the largest 64-bit number.
pub open spec fn rate(delta: nat, nanos: nat) -> nat {
    let r = delta * NANOS_PER_SEC as nat / nanos;
    if r > u64::MAX {
        u64::MAX as nat
    } else {
        r
    }
}

/// The sum of two counts, held at the largest 64-bit number.
pub open spec fn capped_sum(a: u64, b: u64) -> u64 {
    if a + b > u64::MAX {
        u64::MAX
    } else {
        (a + b) as u64
    }
}

/// The bytes written since the count stood at `before`.
pub open spec fn gained(now: u64, before: u64) -> nat {
    if now >= before {
        (now - before) as nat
    } else {
        0
    }
}

/// What a written chunk does: the count grows, and once the interval has
/// passed since the last report, the session hears of the count and of the
/// rate since that report.
pub open spec fn chunk_effect(
    pre: DownloadTracker,
    len: u64,
    now: u64,
    post: DownloadTracker,
    msg: Option<AppMessage>,
) -> bool {
    let downloaded = capped_sum(pre.downloaded, len);
    if now >= pre.last_update && now - pre.last_update >= REPORT_INTERVAL_NANOS {
        &&& post == (DownloadTracker {
            downloaded: downloaded,
            last_update: now,
            last_downloaded: downloaded,
            ..pre
        })
        &&& msg == Some(
            AppMessage::DownloadProgress {
                id: pre.id,
                downloaded: downloaded,
                total: pre.total,
                speed: rate(
                    gained(downloaded, pre.last_downloaded),
                    (now - pre.last_update) as nat,
                ) as u64,
            },
        )
    } else {
        post == (DownloadTracker { downloaded: downloaded, ..pre }) && msg is None
    }
}

/// The step of a transfer: from its state and what happened to its next
/// state and what the session is to hear.
pub open spec fn transfer_effect(
    pre: DownloadTracker,
    event: TransferEvent,
    post: DownloadTracker,
    msg: Option<AppMessage>,
) -> bool {
    match (pre.phase, event) {
        (TransferPhase::Done, _) => post == pre && msg is None,
        (_, TransferEvent::Failed(reason)) => {
            &&& post == (DownloadTracker { phase: TransferPhase::Done, ..pre })
            &&& msg == Some(AppMessage::DownloadFailed(pre.id, reason))
        },
        (TransferPhase::Connecting, TransferEvent::Opened { content_length, now }) => {
            &&& post == (DownloadTracker {
                phase: TransferPhase::Copying,
                total: match content_length {
                    Some(n) => n,
                    None => 0,
                },
                last_update: now,
                ..pre
            })
            &&& msg is None
        },
        (TransferPhase::Copying, TransferEvent::Chunk { len, now }) => chunk_effect(
            pre,
            len,
            now,
            post,
            msg,
        ),
        (TransferPhase::Copying, TransferEvent::Finished) => {
            &&& post == (DownloadTracker { phase: TransferPhase::Done, ..pre })
            &&& msg == Some(AppMessage::DownloadComplete(pre.id))
        },
        _ => post == pre && msg is None,
    }
}

/// The transfer rate for `delta` bytes in `nanos` nanoseconds.
pub fn transfer_rate(delta: u64, nanos: u64) -> (r: u64)
    requires
        nanos > 0,
    ensures
        r == rate(delta as nat, nanos as nat),
{
    let scaled: u128 = delta as u128 * NANOS_PER_SEC as u128;
    let r: u128 = scaled / nanos as u128;
    if r > u64::MAX as u128 {
        u64::MAX
    } else {
        r as u64
    }
}

impl DownloadTracker {
    /// What was reported is not more than what was written.
    pub open spec fn wf(self) -> bool {
        self.last_downloaded <= self.downloaded
    }

    /// The account of the download with the identifier `id`, before its
    /// request was answered.
    pub fn new(id: u64) -> (t: DownloadTracker)
        ensures
            t.wf(),
            t == (DownloadTracker {
                id: id,
                phase: TransferPhase::Connecting,
                total: 0,
                downloaded: 0,
                last_update: 0,
                last_downloaded: 0,
            }),
    {
        DownloadTracker {
            id,
            phase: TransferPhase::Connecting,
            total: 0,
            downloaded: 0,
            last_update: 0,
            last_downloaded: 0,
        }
    }

    /// Whether the transfer is over and nothing more is to be written.
    pub fn is_done(&self) -> (b: bool)
        ensures
            b == (self.phase == TransferPhase::Done),
    {
        self.phase == TransferPhase::Done
    }

    /// Takes what happened and gives what the session is to hear of it, if
    /// anything. The bytes of successive progress reports do not go down, and
    /// after completion or failure nothing more is reported.
    pub fn step(&mut self, event: TransferEvent) -> (msg: Option<AppMessage>)
        ensures
            transfer_effect(*old(self), event, *final(self), msg),
            final(self).downloaded >= old(self).downloaded,
            old(self).wf() ==> final(self).wf(),
            old(self).wf() ==> final(self).last_downloaded >= old(self).last_downloaded,
            old(self).wf() ==> (msg matches Some(
                AppMessage::DownloadProgress { downloaded, total, .. },
            ) ==> downloaded >= old(self).last_downloaded && downloaded == final(self).last_downloaded
                && total == old(self).total),
    {
        match self.phase {
            TransferPhase::Done => None,
            TransferPhase::Connecting => match event {
                TransferEvent::Failed(reason) => {
                    self.phase = TransferPhase::Done;
                    Some(AppMessage::DownloadFailed(self.id, reason))
                },
                TransferEvent::Opened { content_length, now } => {
                    self.phase = TransferPhase::Copying;
                    self.total = match content_length {
                        Some(n) => n,
                        None => 0,
                    };
                    self.last_update = now;
                    None
                },
                _ => None,
            },
            TransferPhase::Copying => match event {
                TransferEvent::Failed(reason) => {
                    self.phase = TransferPhase::Done;
                    Some(AppMessage::DownloadFailed(self.id, reason))
                },
                TransferEvent::Chunk { len, now } => {
                    self.downloaded = self.downloaded.saturating_add(len);
                    if now >= self.last_update && now - self.last_update >= REPORT_INTERVAL_NANOS {
                        let speed = transfer_rate(
                            self.downloaded.saturating_sub(self.last_downloaded),
                            now - self.last_update,
                        );
                        self.last_update = now;
                        self.last_downloaded = self.downloaded;
                        Some(
                            AppMessage::DownloadProgress {
                                id: self.id,
                                downloaded: self.downloaded,
                                total: self.total,
                                speed,
                            },
                        )
                    } else {
                        None
                    }
                },
                TransferEvent::Finished => {
                    self.phase = TransferPhase::Done;
                    Some(AppMessage::DownloadComplete(self.id))
                },
                _ => None,
            },
        }
    }
}

/// Completion is reported at most once: a transfer that reported its
/// completion or its failure is done, and a transfer that is done reports
/// nothing and stays as it is, whatever happens.
pub proof fn lemma_reports_end_once(
    tracker: DownloadTracker,
    event: TransferEvent,
    next: DownloadTracker,
    msg: Option<AppMessage>,
    later: TransferEvent,
    last: DownloadTracker,
    after: Option<AppMessage>,
)
    requires
        transfer_effect(tracker, event, next, msg),
        transfer_effect(next, later, last, after),
        msg matches Some(m) && (m is DownloadComplete || m is DownloadFailed),
    ensures
        next.phase == TransferPhase::Done,
        after is None,
        last == next,
{
}

/// A transfer without a declared length reports 0 as the total in every
/// progress report, and the bytes written so far with it.
pub proof fn lemma_unknown_total_stays_zero(
    tracker: DownloadTracker,
    event: TransferEvent,
    next: DownloadTracker,
    msg: Option<AppMessage>,
)
    requires
        tracker.phase == TransferPhase::Copying,
        tracker.total == 0,
        transfer_effect(tracker, event, next, msg),
    ensures
        next.total == 0,
        msg matches Some(AppMessage::DownloadProgress { total, downloaded, .. }) ==> total == 0
            && downloaded == next.downloaded,
{
}

/// A run of a transfer: the steps taken one after the other for the events
/// of `events`, with what the session heard of each.
pub open spec fn transfer_run(
    pre: DownloadTracker,
    events: Seq<TransferEvent>,
    post: DownloadTracker,
    msgs: Seq<Option<AppMessage>>,
) -> bool
    decreases events.len(),
{
    &&& msgs.len() == events.len()
    &&& if events.len() == 0 {
        post == pre
    } else {
        exists|mid: DownloadTracker|
            transfer_run(pre, events.drop_last(), mid, msgs.drop_last()) && transfer_effect(
                mid,
                events.last(),
                post,
                msgs.last(),
            )
    }
}

/// The bytes that a progress report tells of; none for anything else.
pub open spec fn reported_bytes(msg: Option<AppMessage>) -> Option<u64> {
    match msg {
        Some(AppMessage::DownloadProgress { downloaded, .. }) => Some(downloaded),
        _ => None,
    }
}

/// The message says that the transfer ended: completed or failed.
pub open spec fn is_ending(msg: Option<AppMessage>) -> bool {
    msg matches Some(m) && (m is DownloadComplete || m is DownloadFailed)
}

/// Along a run the reported bytes stay between what was reported before the
/// run and what is reported at its end; once the transfer ended, it stays
/// ended and nothing more is heard.
pub proof fn lemma_run_keeps_order(
    pre: DownloadTracker,
    events: Seq<TransferEvent>,
    post: DownloadTracker,
    msgs: Seq<Option<AppMessage>>,
)
    requires
        pre.wf(),
        transfer_run(pre, events, post, msgs),
    ensures
        post.wf(),
        pre.last_downloaded <= post.last_downloaded,
        forall|i: int|
            0 <= i < msgs.len() ==> (#[trigger] msgs[i] matches Some(
                AppMessage::DownloadProgress { downloaded, .. },
            ) ==> pre.last_downloaded <= downloaded <= post.last_downloaded),
        forall|i: int| 0 <= i < msgs.len() && is_ending(#[trigger] msgs[i]) ==> post.phase
            == TransferPhase::Done,
        pre.phase == TransferPhase::Done ==> post == pre && forall|i: int|
            0 <= i < msgs.len() ==> #[trigger] msgs[i] is None,
    decreases events.len(),
{
    if events.len() > 0 {
        let mid = choose|mid: DownloadTracker|
            transfer_run(pre, events.drop_last(), mid, msgs.drop_last()) && transfer_effect(
                mid,
                events.last(),
                post,
                msgs.last(),
            );
        lemma_run_keeps_order(pre, events.drop_last(), mid, msgs.drop_last());
        assert forall|i: int| 0 <= i < msgs.len() implies (#[trigger] msgs[i] matches Some(
            AppMessage::DownloadProgress { downloaded, .. },
        ) ==> pre.last_downloaded <= downloaded <= post.last_downloaded) by {
            if i < msgs.len() - 1 {
                assert(msgs[i] == msgs.drop_last()[i]);
            }
        }
        assert forall|i: int| 0 <= i < msgs.len() && is_ending(#[trigger] msgs[i]) implies post.phase
            == TransferPhase::Done by {
            if i < msgs.len() - 1 {
                assert(msgs[i] == msgs.drop_last()[i]);
            }
        }
        if pre.phase == TransferPhase::Done {
            assert forall|i: int| 0 <= i < msgs.len() implies #[trigger] msgs[i] is None by {
                if i < msgs.len() - 1 {
                    assert(msgs[i] == msgs.drop_last()[i]);
                }
            }
        }
    }
}

/// A run can be cut in two: the run up to place `k` and the run from there.
pub proof fn lemma_run_splits(
    pre: DownloadTracker,
    events: Seq<TransferEvent>,
    post: DownloadTracker,
    msgs: Seq<Option<AppMessage>>,
    k: int,
) -> (mid: DownloadTracker)
    requires
        transfer_run(pre, events, post, msgs),
        0 <= k <= events.len(),
    ensures
        transfer_run(pre, events.take(k), mid, msgs.take(k)),
        transfer_run(mid, events.skip(k), post, msgs.skip(k)),
    decreases events.len(),
{
    if k == events.len() {
        assert(events.take(k) =~= events);
        assert(msgs.take(k) =~= msgs);
        assert(events.skip(k) =~= Seq::empty());
        assert(msgs.skip(k) =~= Seq::empty());
        post
    } else {
        let last = choose|last: DownloadTracker|
            transfer_run(pre, events.drop_last(), last, msgs.drop_last()) && transfer_effect(
                last,
                events.last(),
                post,
                msgs.last(),
            );
        let mid = lemma_run_splits(pre, events.drop_last(), last, msgs.drop_last(), k);
        assert(events.drop_last().take(k) =~= events.take(k));
        assert(msgs.drop_last().take(k) =~= msgs.take(k));
        assert(events.skip(k).drop_last() =~= events.drop_last().skip(k));
        assert(msgs.skip(k).drop_last() =~= msgs.drop_last().skip(k));
        assert(events.skip(k).last() == events.last());
        assert(msgs.skip(k).last() == msgs.last());
        mid
    }
}

/// For every download, the bytes of its progress reports never go down, and
/// once its completion or failure was reported nothing more is heard of it:
/// completion is reported at most once.
pub proof fn lemma_progress_never_goes_down(
    pre: DownloadTracker,
    events: Seq<TransferEvent>,
    post: DownloadTracker,
    msgs: Seq<Option<AppMessage>>,
    i: int,
    j: int,
)
    requires
        pre.wf(),
        transfer_run(pre, events, post, msgs),
        0 <= i < j < msgs.len(),
    ensures
        reported_bytes(msgs[i]) is Some && reported_bytes(msgs[j]) is Some ==> reported_bytes(
            msgs[i],
        )->0 <= reported_bytes(msgs[j])->0,
        is_ending(msgs[i]) ==> msgs[j] is None,
{
    let mid = lemma_run_splits(pre, events, post, msgs, j);
    lemma_run_keeps_order(pre, events.take(j), mid, msgs.take(j));
    assert(msgs.take(j)[i] == msgs[i]);
    lemma_run_keeps_order(mid, events.skip(j), post, msgs.skip(j));
    assert(msgs.skip(j)[0] == msgs[j]);
}

/// The messages among what the session heard, in their order.
pub open spec fn heard_messages(heard: Seq<Option<AppMessage>>) -> Seq<AppMessage>
    decreases heard.len(),
{
    if heard.len() == 0 {
        Seq::empty()
    } else {
        match heard.last() {
            Some(m) => heard_messages(heard.drop_last()).push(m),
            None => heard_messages(heard.drop_last()),
        }
    }
}

/// The total that a progress report tells of; none for anything else.
pub open spec fn reported_total(msg: Option<AppMessage>) -> Option<u64> {
    match msg {
        Some(AppMessage::DownloadProgress { total, .. }) => Some(total),
        _ => None,
    }
}

/// The sum of the lengths of the chunks among the events, held at the
/// largest 64-bit number, on top of `start`.
pub open spec fn written(start: u64, events: Seq<TransferEvent>) -> u64
    decreases events.len(),
{
    if events.len() == 0 {
        start
    } else {
        match events.last() {
            TransferEvent::Chunk { len, .. } => capped_sum(written(start, events.drop_last()), len),
            _ => written(start, events.drop_last()),
        }
    }
}

/// Each message that was sent was heard, and messages were sent in the order
/// in which they were heard: the message at place `i` stands at a place of
/// `heard` behind those of the messages before it.
pub proof fn lemma_heard_place(heard: Seq<Option<AppMessage>>, i: int) -> (k: int)
    requires
        0 <= i < heard_messages(heard).len(),
    ensures
        0 <= k < heard.len(),
        heard[k] == Some(heard_messages(heard)[i]),
        heard_messages(heard.take(k)).len() == i,
        heard_messages(heard.take(k + 1)) == heard_messages(heard).take(i + 1),
    decreases heard.len(),
{
    let front = heard.drop_last();
    let sent = heard_messages(heard);
    let last = heard.len() - 1;
    assert(heard.take(last) =~= front);
    assert(heard.take(last + 1) =~= heard);
    if heard.last() is Some && i == sent.len() - 1 {
        assert(sent.take(i + 1) =~= sent);
        last
    } else {
        let k = lemma_heard_place(front, i);
        assert(front.take(k) =~= heard.take(k));
        assert(front.take(k + 1) =~= heard.take(k + 1));
        assert(heard_messages(front).take(i + 1) =~= sent.take(i + 1));
        k
    }
}

/// Of two messages that were sent, the later one was heard later.
pub proof fn lemma_heard_order(heard: Seq<Option<AppMessage>>, i: int, j: int) -> (r: (int, int))
    requires
        0 <= i < j < heard_messages(heard).len(),
    ensures
        0 <= r.0 < r.1 < heard.len(),
        heard[r.0] == Some(heard_messages(heard)[i]),
        heard[r.1] == Some(heard_messages(heard)[j]),
{
    let k = lemma_heard_place(heard, i);
    let l = lemma_heard_place(heard, j);
    if l <= k {
        lemma_heard_grows(heard, l, k);
    }
    (k, l)
}

/// A longer beginning of what was heard holds at least as many messages.
pub proof fn lemma_heard_grows(heard: Seq<Option<AppMessage>>, a: int, b: int)
    requires
        0 <= a <= b <= heard.len(),
    ensures
        heard_messages(heard.take(a)).len() <= heard_messages(heard.take(b)).len(),
    decreases b - a,
{
    if a < b {
        lemma_heard_grows(heard, a, b - 1);
        assert(heard.take(b).drop_last() =~= heard.take(b - 1));
    }
}

/// Every progress report of a run carries the total that the transfer has
/// at its end: the declared length that the opening gave, or 0.
pub proof fn lemma_totals_agree(
    pre: DownloadTracker,
    events: Seq<TransferEvent>,
    post: DownloadTracker,
    msgs: Seq<Option<AppMessage>>,
)
    requires
        transfer_run(pre, events, post, msgs),
    ensures
        post.id == pre.id,
        post.phase == TransferPhase::Connecting ==> pre.phase == TransferPhase::Connecting
            && forall|i: int| 0 <= i < msgs.len() ==> #[trigger] msgs[i] is None,
        pre.phase != TransferPhase::Connecting ==> post.total == pre.total,
        forall|i: int|
            0 <= i < msgs.len() && reported_total(#[trigger] msgs[i]) is Some ==> reported_total(
                msgs[i],
            ) == Some(post.total),
    decreases events.len(),
{
    if events.len() > 0 {
        let mid = choose|mid: DownloadTracker|
            transfer_run(pre, events.drop_last(), mid, msgs.drop_last()) && transfer_effect(
                mid,
                events.last(),
                post,
                msgs.last(),
            );
        lemma_totals_agree(pre, events.drop_last(), mid, msgs.drop_last());
        assert forall|i: int|
            0 <= i < msgs.len() && reported_total(#[trigger] msgs[i]) is Some implies reported_total(
            msgs[i],
        ) == Some(post.total) by {
            if i < msgs.len() - 1 {
                assert(msgs[i] == msgs.drop_last()[i]);
            }
        }
        if post.phase == TransferPhase::Connecting {
            assert forall|i: int| 0 <= i < msgs.len() implies #[trigger] msgs[i] is None by {
                if i < msgs.len() - 1 {
                    assert(msgs[i] == msgs.drop_last()[i]);
                }
            }
        }
    }
}

/// The total that an opening declares: the content length, or 0 where none
/// was declared.
pub open spec fn declared_total(event: TransferEvent) -> u64 {
    match event {
        TransferEvent::Opened { content_length: Some(n), .. } => n,
        _ => 0,
    }
}

/// A transfer that begins with its opening keeps the total that the opening
/// declared: the content length, or 0 where none was declared.
pub proof fn lemma_total_is_declared(
    pre: DownloadTracker,
    events: Seq<TransferEvent>,
    post: DownloadTracker,
    msgs: Seq<Option<AppMessage>>,
)
    requires
        pre.phase == TransferPhase::Connecting,
        transfer_run(pre, events, post, msgs),
        events.len() > 0,
        events[0] is Opened,
    ensures
        post.total == declared_total(events[0]),
{
    let mid = lemma_run_splits(pre, events, post, msgs, 1);
    assert(events.take(1).drop_last() =~= Seq::<TransferEvent>::empty());
    assert(events.take(1).last() == events[0]);
    let start = choose|start: DownloadTracker|
        transfer_run(pre, events.take(1).drop_last(), start, msgs.take(1).drop_last())
            && transfer_effect(start, events.take(1).last(), mid, msgs.take(1).last());
    assert(start == pre);
    lemma_totals_agree(mid, events.skip(1), post, msgs.skip(1));
}

/// While chunks are written without a failure, the transfer goes on copying
/// and its count is the sum of their lengths; a progress report carries the
/// count as it stands when it is sent, and nothing else is heard.
pub proof fn lemma_chunks_add_up(
    pre: DownloadTracker,
    events: Seq<TransferEvent>,
    post: DownloadTracker,
    msgs: Seq<Option<AppMessage>>,
)
    requires
        pre.phase == TransferPhase::Copying,
        transfer_run(pre, events, post, msgs),
        forall|k: int| 0 <= k < events.len() ==> #[trigger] events[k] is Chunk,
    ensures
        post.phase == TransferPhase::Copying,
        post.downloaded == written(pre.downloaded, events),
        post.total == pre.total,
        forall|k: int|
            0 <= k < msgs.len() ==> (#[trigger] msgs[k] is None || msgs[k] == Some(
                AppMessage::DownloadProgress {
                    id: pre.id,
                    downloaded: written(pre.downloaded, events.take(k + 1)),
                    total: pre.total,
                    speed: msgs[k]->0->speed,
                },
            )),
    decreases events.len(),
{
    if events.len() > 0 {
        let mid = choose|mid: DownloadTracker|
            transfer_run(pre, events.drop_last(), mid, msgs.drop_last()) && transfer_effect(
                mid,
                events.last(),
                post,
                msgs.last(),
            );
        let front = events.drop_last();
        assert forall|k: int| 0 <= k < front.len() implies #[trigger] front[k] is Chunk by {
            assert(front[k] == events[k]);
        }
        lemma_chunks_add_up(pre, front, mid, msgs.drop_last());
        lemma_totals_agree(pre, front, mid, msgs.drop_last());
        assert(events[events.len() - 1] is Chunk);
        assert(events.take(events.len() as int) =~= events);
        assert forall|k: int| 0 <= k < msgs.len() implies (#[trigger] msgs[k] is None || msgs[k]
            == Some(
            AppMessage::DownloadProgress {
                id: pre.id,
                downloaded: written(pre.downloaded, events.take(k + 1)),
                total: pre.total,
                speed: msgs[k]->0->speed,
            },
        )) by {
            if k < msgs.len() - 1 {
                assert(msgs[k] == msgs.drop_last()[k]);
                assert(front.take(k + 1) =~= events.take(k + 1));
            }
        }
    }
}

/// A transfer whose body ends without a failure reports its completion, and
/// reports it as the last thing: after the opening, whatever chunks are
/// written, the end of the body gives the completion of this download and
/// no failure is heard.
pub proof fn lemma_clean_end_completes(
    pre: DownloadTracker,
    events: Seq<TransferEvent>,
    post: DownloadTracker,
    msgs: Seq<Option<AppMessage>>,
)
    requires
        pre.phase == TransferPhase::Copying,
        transfer_run(pre, events, post, msgs),
        events.len() > 0,
        events.last() is Finished,
        forall|k: int| 0 <= k < events.len() - 1 ==> #[trigger] events[k] is Chunk,
    ensures
        post.phase == TransferPhase::Done,
        msgs.last() == Some(AppMessage::DownloadComplete(pre.id)),
        forall|k: int| 0 <= k < msgs.len() - 1 ==> !is_ending(#[trigger] msgs[k]),
{
    let mid = choose|mid: DownloadTracker|
        transfer_run(pre, events.drop_last(), mid, msgs.drop_last()) && transfer_effect(
            mid,
            events.last(),
            post,
            msgs.last(),
        );
    let front = events.drop_last();
    assert forall|k: int| 0 <= k < front.len() implies #[trigger] front[k] is Chunk by {
        assert(front[k] == events[k]);
    }
    lemma_chunks_add_up(pre, front, mid, msgs.drop_last());
    lemma_totals_agree(pre, front, mid, msgs.drop_last());
    assert forall|k: int| 0 <= k < msgs.len() - 1 implies !is_ending(#[trigger] msgs[k]) by {
        assert(msgs[k] == msgs.drop_last()[k]);
    }
}

/// The transfer of the download with the identifier `id` as the session
/// hears of it: the messages that its task sends for what happens to the
/// transfer, in their order.
///
/// The bytes of the progress reports never go down, every progress report
/// carries the same total (the declared length, or 0 where none was
/// declared), and a completion or a failure is the last message: completion
/// is reported at most once and never beside a failure.
pub fn start_download(id: u64, events: Vec<TransferEvent>) -> (sent: Vec<AppMessage>)
    ensures
        exists|post: DownloadTracker, heard: Seq<Option<AppMessage>>|
            transfer_run(
                DownloadTracker {
                    id: id,
                    phase: TransferPhase::Connecting,
                    total: 0,
                    downloaded: 0,
                    last_update: 0,
                    last_downloaded: 0,
                },
                events@,
                post,
                heard,
            ) && sent@ == heard_messages(heard) && (events.len() > 0 && events[0] is Opened
                ==> post.total == declared_total(events[0])) && forall|i: int|
                0 <= i < sent.len() && reported_total(Some(#[trigger] sent[i])) is Some
                    ==> reported_total(Some(sent[i])) == Some(post.total),
        forall|i: int, j: int|
            0 <= i < j < sent.len() && reported_bytes(Some(#[trigger] sent[i])) is Some
                && reported_bytes(Some(#[trigger] sent[j])) is Some ==> reported_bytes(
                Some(sent[i]),
            )->0 <= reported_bytes(Some(sent[j]))->0,
        forall|i: int| 0 <= i < sent.len() && is_ending(Some(#[trigger] sent[i])) ==> i == sent.len() - 1,
        forall|i: int|
            0 <= i < sent.len() ==> match #[trigger] sent[i] {
                AppMessage::DownloadProgress { id: of, .. } => of == id,
                AppMessage::DownloadComplete(of) => of == id,
                AppMessage::DownloadFailed(of, _) => of == id,
                _ => false,
            },
{
    let ghost all = events@;
    let mut tracker = DownloadTracker::new(id);
    let ghost first = tracker;
    let mut rest = crate::lists::reversed(events);
    let mut sent: Vec<AppMessage> = Vec::new();
    let ghost mut heard: Seq<Option<AppMessage>> = Seq::empty();
    let ghost mut done: int = 0;
    assert(all.take(0) =~= Seq::empty());
    while rest.len() > 0
        invariant
            0 <= done <= all.len(),
            done + rest.len() == all.len(),
            rest@ == all.reverse().take(rest.len() as int),
            first.wf(),
            first.id == id,
            transfer_run(first, all.take(done), tracker, heard),
            sent@ == heard_messages(heard),
        decreases rest.len(),
    {
        let event = rest.pop().unwrap();
        let ghost mid = tracker;
        let ghost before = heard;
        let msg = tracker.step(event);
        proof {
            heard = heard.push(msg);
            assert(event == all[done]);
            assert(all.take(done + 1).drop_last() =~= all.take(done));
            assert(all.take(done + 1).last() == event);
            assert(heard.drop_last() =~= before);
            assert(transfer_run(first, all.take(done + 1).drop_last(), mid, heard.drop_last())
                && transfer_effect(mid, all.take(done + 1).last(), tracker, heard.last()));
            done = done + 1;
        }
        match msg {
            Some(m) => {
                sent.push(m);
            },
            None => {},
        }
    }
    proof {
        assert(all.take(done) =~= all);
        lemma_totals_agree(first, all, tracker, heard);
        if all.len() > 0 && all[0] is Opened {
            lemma_total_is_declared(first, all, tracker, heard);
        }
        assert forall|i: int|
            0 <= i < sent.len() && reported_total(Some(#[trigger] sent[i])) is Some implies reported_total(
            Some(sent[i]),
        ) == Some(tracker.total) by {
            let k = lemma_heard_place(heard, i);
        }
        assert forall|i: int, j: int|
            0 <= i < j < sent.len() && reported_bytes(Some(#[trigger] sent[i])) is Some
                && reported_bytes(Some(#[trigger] sent[j])) is Some implies reported_bytes(
            Some(sent[i]),
        )->0 <= reported_bytes(Some(sent[j]))->0 by {
            let (k, l) = lemma_heard_order(heard, i, j);
            lemma_progress_never_goes_down(first, all, tracker, heard, k, l);
        }
        assert forall|i: int| 0 <= i < sent.len() && is_ending(Some(#[trigger] sent[i])) implies i
            == sent.len() - 1 by {
            if i < sent.len() - 1 {
                let (k, l) = lemma_heard_order(heard, i, sent.len() - 1);
                lemma_progress_never_goes_down(first, all, tracker, heard, k, l);
            }
        }
        assert forall|i: int| 0 <= i < sent.len() implies match #[trigger] sent[i] {
            AppMessage::DownloadProgress { id: of, .. } => of == id,
            AppMessage::DownloadComplete(of) => of == id,
            AppMessage::DownloadFailed(of, _) => of == id,
            _ => false,
        } by {
            let k = lemma_heard_place(heard, i);
            let mid = lemma_run_splits(first, all, tracker, heard, k);
            lemma_totals_agree(first, all.take(k), mid, heard.take(k));
            let end = lemma_run_splits(mid, all.skip(k), tracker, heard.skip(k), 1);
            assert(all.skip(k).take(1).drop_last() =~= Seq::<TransferEvent>::empty());
            assert(heard.skip(k).take(1).last() == heard[k]);
            let start = choose|start: DownloadTracker|
                transfer_run(
                    mid,
                    all.skip(k).take(1).drop_last(),
                    start,
                    heard.skip(k).take(1).drop_last(),
                ) && transfer_effect(
                    start,
                    all.skip(k).take(1).last(),
                    end,
                    heard.skip(k).take(1).last(),
                );
            assert(start == mid);
        }
    }
    sent
}

} // verus!
