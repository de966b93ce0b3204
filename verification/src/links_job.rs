use crate::realdebrid::{RdError, TorrentInfo, UnrestrictedLink};
use crate::text::{decimal, push_decimal, same_text};
use vstd::prelude::*;
use vstd::string::*;

verus! {

/// How long the links of a remote job are waited for at most, in seconds.
pub const WAIT_BUDGET_SECS: u64 = 300;

/// The pause between two questions for the state of the job, in seconds.
pub const WAIT_INTERVAL_SECS: u64 = 2;

/// Where the resolution of the chosen files stands.
#[derive(Clone, Copy, Debug, PartialEq, Eq, Structural)]
pub enum ResolvePhase {
    /// The selection was sent.
    Selecting,
    /// The state of the remote job was asked for.
    Polling,
    /// The job pauses before it asks again.
    Waiting,
    /// A link was sent to be made directly downloadable.
    Unrestricting,
    /// The outcome was handed out.
    Finished,
}

/// The resolution of the chosen files of one remote job into direct links.
#[derive(Debug)]
pub struct ResolveJob {
    pub phase: ResolvePhase,
    pub torrent_id: String,
    /// The seconds spent in pauses so far.
    pub elapsed: u64,
    /// The links that the service reported when the job was done.
    pub links: Vec<String>,
    /// File name and direct address for each link handled so far.
    pub downloads: Vec<(String, String)>,
}

/// What the caller is to do next for a resolution.
#[derive(Debug)]
pub enum ResolveAction {
    SelectFiles { torrent_id: String, files: String },
    GetInfo { torrent_id: String },
    Wait { seconds: u64 },
    Unrestrict { link: String },
    /// The resolution is over, with file name and direct address for every
    /// link or with the reason of the failure.
    Finish(Result<Vec<(String, String)>, RdError>),
}

/// What came of the last action.
#[derive(Debug)]
pub enum ResolveEvent {
    Selected(Result<(), RdError>),
    Info(Result<TorrentInfo, RdError>),
    Waited,
    Unrestricted(Result<UnrestrictedLink, RdError>),
}

/// What a resolution lets its caller know while it goes on.
#[derive(Debug)]
pub enum ResolveReport {
    SelectingFiles,
    UnrestrictingLinks,
    /// Link number `index`, counted from 1, of `total` is being handled.
    UnrestrictingLink { index: usize, total: usize },
    /// The remote job is not done: its status, percent complete, transfer
    /// rate in bytes per second and seeder count, each 0 where the service
    /// did not say.
    Progress { status: String, progress: u64, speed: u64, seeders: u32 },
}

/// The identifiers as the service takes them: decimal, separated by commas.
pub open spec fn joined_ids(ids: Seq<u32>) -> Seq<char>
    decreases ids.len(),
{
    if ids.len() == 0 {
        Seq::empty()
    } else if ids.len() == 1 {
        decimal(ids[0] as nat)
    } else {
        joined_ids(ids.drop_last()) + ","@ + decimal(ids.last() as nat)
    }
}

/// The text of the reports that carry no measurements; none for a progress
/// report.
pub open spec fn report_text(r: ResolveReport) -> Option<Seq<char>> {
    match r {
        ResolveReport::SelectingFiles => Some("Selecting files..."@),
        ResolveReport::UnrestrictingLinks => Some("Unrestricting links..."@),
        ResolveReport::UnrestrictingLink { index, total } => Some(
            "Unrestricting link "@ + decimal(index as nat) + "/"@ + decimal(total as nat) + "..."@,
        ),
        ResolveReport::Progress { .. } => None,
    }
}

/// The value of an optional measurement; 0 where there is none.
pub open spec fn or_zero(v: Option<u64>) -> u64 {
    match v {
        Some(x) => x,
        None => 0,
    }
}

/// The resolution is over with the failure `e`, without a report.
pub open spec fn resolve_failed(
    pre: ResolveJob,
    post: ResolveJob,
    action: ResolveAction,
    reports: Seq<ResolveReport>,
    e: RdError,
) -> bool {
    &&& post == (ResolveJob { phase: ResolvePhase::Finished, ..pre })
    &&& action == ResolveAction::Finish(Err(e))
    &&& reports.len() == 0
}

/// The resolution asks for the state of the remote job, without a report.
pub open spec fn resolve_polls(
    pre: ResolveJob,
    post: ResolveJob,
    action: ResolveAction,
    reports: Seq<ResolveReport>,
) -> bool {
    &&& post == (ResolveJob { phase: ResolvePhase::Polling, ..pre })
    &&& action == (ResolveAction::GetInfo { torrent_id: pre.torrent_id })
    &&& reports.len() == 0
}

/// What the answer "downloaded" does: with links the first one is handled,
/// without any the resolution fails.
pub open spec fn resolve_downloaded_effect(
    pre: ResolveJob,
    links: Seq<String>,
    post: ResolveJob,
    action: ResolveAction,
    reports: Seq<ResolveReport>,
) -> bool {
    if links.len() == 0 {
        &&& post == (ResolveJob { phase: ResolvePhase::Finished, ..pre })
        &&& action == ResolveAction::Finish(Err(RdError::NoLinks))
        &&& reports == seq![ResolveReport::UnrestrictingLinks]
    } else {
        &&& post.links@ == links
        &&& post.downloads@.len() == 0
        &&& post == (ResolveJob {
            phase: ResolvePhase::Unrestricting,
            links: post.links,
            downloads: post.downloads,
            ..pre
        })
        &&& action == (ResolveAction::Unrestrict { link: links[0] })
        &&& reports == seq![
            ResolveReport::UnrestrictingLinks,
            ResolveReport::UnrestrictingLink { index: 1, total: links.len() as usize },
        ]
    }
}

/// The links that an answer of the service holds; none where it holds none.
pub open spec fn reported_links(links: Option<Vec<String>>) -> Seq<String> {
    match links {
        Some(l) => l@,
        None => Seq::empty(),
    }
}

/// What the state of the remote job does to a resolution that asked for it.
pub open spec fn resolve_info_effect(
    pre: ResolveJob,
    info: TorrentInfo,
    post: ResolveJob,
    action: ResolveAction,
    reports: Seq<ResolveReport>,
) -> bool {
    if info.status@ == "downloaded"@ {
        resolve_downloaded_effect(pre, reported_links(info.links), post, action, reports)
    } else if info.status@ == "error"@ || info.status@ == "dead"@ || info.status@
        == "magnet_error"@ {
        resolve_failed(pre, post, action, reports, RdError::TorrentFailed(info.status))
    } else {
        &&& post == (ResolveJob { phase: ResolvePhase::Waiting, ..pre })
        &&& action == (ResolveAction::Wait { seconds: WAIT_INTERVAL_SECS })
        &&& reports == seq![
            ResolveReport::Progress {
                status: info.status,
                progress: or_zero(info.progress),
                speed: or_zero(info.speed),
                seeders: match info.seeders {
                    Some(s) => s,
                    None => 0,
                },
            },
        ]
    }
}

/// What a directly downloadable link does: it joins the list, and either the
/// next link is handled or, after the last one, the list is the outcome.
pub open spec fn resolve_link_effect(
    pre: ResolveJob,
    link: UnrestrictedLink,
    post: ResolveJob,
    action: ResolveAction,
    reports: Seq<ResolveReport>,
) -> bool {
    let list = pre.downloads@.push((link.filename, link.download));
    if list.len() < pre.links.len() {
        &&& post.downloads@ == list
        &&& post == (ResolveJob { downloads: post.downloads, ..pre })
        &&& action == (ResolveAction::Unrestrict { link: pre.links[list.len() as int] })
        &&& reports == seq![
            ResolveReport::UnrestrictingLink {
                index: (list.len() + 1) as usize,
                total: pre.links.len(),
            },
        ]
    } else {
        &&& post.downloads@.len() == 0
        &&& post == (ResolveJob {
            phase: ResolvePhase::Finished,
            downloads: post.downloads,
            ..pre
        })
        &&& action matches ResolveAction::Finish(Ok(all))
        &&& all@ == list
        &&& reports.len() == 0
    }
}

/// The step of a resolution: from its state and what came of the last action
/// to its next state, the next action and what to let the caller know.
pub open spec fn resolve_step_effect(
    pre: ResolveJob,
    event: ResolveEvent,
    post: ResolveJob,
    action: ResolveAction,
    reports: Seq<ResolveReport>,
) -> bool {
    match (pre.phase, event) {
        (ResolvePhase::Selecting, ResolveEvent::Selected(Ok(_))) => resolve_polls(
            pre,
            post,
            action,
            reports,
        ),
        (ResolvePhase::Selecting, ResolveEvent::Selected(Err(e))) => resolve_failed(
            pre,
            post,
            action,
            reports,
            e,
        ),
        (ResolvePhase::Polling, ResolveEvent::Info(Ok(info))) => resolve_info_effect(
            pre,
            info,
            post,
            action,
            reports,
        ),
        (ResolvePhase::Polling, ResolveEvent::Info(Err(e))) => resolve_failed(
            pre,
            post,
            action,
            reports,
            e,
        ),
        (ResolvePhase::Waiting, ResolveEvent::Waited) => if pre.elapsed + WAIT_INTERVAL_SECS
            < WAIT_BUDGET_SECS {
            resolve_polls(
                ResolveJob { elapsed: (pre.elapsed + WAIT_INTERVAL_SECS) as u64, ..pre },
                post,
                action,
                reports,
            )
        } else {
            resolve_failed(
                ResolveJob { elapsed: WAIT_BUDGET_SECS, ..pre },
                post,
                action,
                reports,
                RdError::TorrentTimeout,
            )
        },
        (ResolvePhase::Unrestricting, ResolveEvent::Unrestricted(Ok(link))) => resolve_link_effect(
            pre,
            link,
            post,
            action,
            reports,
        ),
        (ResolvePhase::Unrestricting, ResolveEvent::Unrestricted(Err(e))) => resolve_failed(
            pre,
            post,
            action,
            reports,
            e,
        ),
        _ => resolve_failed(pre, post, action, reports, RdError::UnexpectedEvent),
    }
}

/// The identifiers as the service takes them: decimal, separated by commas.
pub fn join_ids(ids: &Vec<u32>) -> (s: String)
    ensures
        s@ == joined_ids(ids@),
{
    let mut s = String::new();
    let mut i: usize = 0;
    assert(ids@.take(0) =~= Seq::empty());
    while i < ids.len()
        invariant
            i <= ids.len(),
            s@ == joined_ids(ids@.take(i as int)),
        decreases ids.len() - i,
    {
        proof {
            assert(ids@.take(i + 1).drop_last() =~= ids@.take(i as int));
            assert(ids@.take(i + 1).last() == ids@[i as int]);
            assert(ids@.take(1)[0] == ids@[0]);
        }
        if i > 0 {
            s.append(",");
        }
        push_decimal(&mut s, ids[i] as u64);
        i += 1;
    }
    assert(ids@.take(ids.len() as int) =~= ids@);
    s
}

impl ResolveReport {
    /// The status line for a report that carries no measurements; none for a
    /// progress report, whose line is made from its measurements.
    pub fn message(&self) -> (m: Option<String>)
        ensures
            match m {
                Some(text) => report_text(*self) == Some(text@),
                None => report_text(*self) is None,
            },
    {
        match self {
            ResolveReport::SelectingFiles => Some(String::from_str("Selecting files...")),
            ResolveReport::UnrestrictingLinks => Some(String::from_str("Unrestricting links...")),
            ResolveReport::UnrestrictingLink { index, total } => {
                let mut m = String::from_str("Unrestricting link ");
                push_decimal(&mut m, *index as u64);
                m.append("/");
                push_decimal(&mut m, *total as u64);
                m.append("...");
                Some(m)
            },
            ResolveReport::Progress { .. } => None,
        }
    }
}

impl ResolveJob {
    /// The pauses are whole intervals within the budget, which is not used up
    /// while the resolution goes on, and while links are handled one is still
    /// open.
    pub open spec fn wf(self) -> bool {
        &&& self.elapsed <= WAIT_BUDGET_SECS
        &&& self.elapsed % WAIT_INTERVAL_SECS == 0
        &&& self.phase != ResolvePhase::Finished ==> self.elapsed < WAIT_BUDGET_SECS
        &&& self.phase == ResolvePhase::Unrestricting ==> self.downloads.len() < self.links.len()
    }

    /// The seconds of pause that the resolution can still ask for.
    pub open spec fn wait_left(self) -> nat {
        match self.phase {
            ResolvePhase::Selecting => WAIT_BUDGET_SECS as nat,
            ResolvePhase::Polling => (WAIT_BUDGET_SECS - self.elapsed) as nat,
            ResolvePhase::Waiting => (WAIT_BUDGET_SECS - self.elapsed - WAIT_INTERVAL_SECS) as nat,
            _ => 0,
        }
    }

    /// Begins the resolution of the files `file_ids` of the remote job
    /// `torrent_id`: the first action selects them.
    pub fn start(torrent_id: String, file_ids: &Vec<u32>) -> (r: (
        ResolveJob,
        ResolveAction,
        Vec<ResolveReport>,
    ))
        ensures
            r.0.wf(),
            r.0.phase == ResolvePhase::Selecting,
            r.0.torrent_id == torrent_id,
            r.0.elapsed == 0,
            r.0.links.len() == 0,
            r.0.downloads.len() == 0,
            r.1 matches ResolveAction::SelectFiles { torrent_id: id, files } && id == torrent_id
                && files@ == joined_ids(file_ids@),
            r.2@ == seq![ResolveReport::SelectingFiles],
    {
        let files = join_ids(file_ids);
        let action = ResolveAction::SelectFiles { torrent_id: torrent_id.clone(), files };
        let job = ResolveJob {
            phase: ResolvePhase::Selecting,
            torrent_id,
            elapsed: 0,
            links: Vec::new(),
            downloads: Vec::new(),
        };
        let mut reports: Vec<ResolveReport> = Vec::new();
        reports.push(ResolveReport::SelectingFiles);
        assert(reports@ =~= seq![ResolveReport::SelectingFiles]);
        (job, action, reports)
    }

    /// Whether the outcome was handed out.
    pub fn is_finished(&self) -> (b: bool)
        ensures
            b == (self.phase == ResolvePhase::Finished),
    {
        self.phase == ResolvePhase::Finished
    }

    /// Ends the resolution with the failure `e`.
    fn fail(&mut self, e: RdError) -> (action: ResolveAction)
        ensures
            *final(self) == (ResolveJob { phase: ResolvePhase::Finished, ..*old(self) }),
            action == ResolveAction::Finish(Err(e)),
    {
        self.phase = ResolvePhase::Finished;
        ResolveAction::Finish(Err(e))
    }

    /// Asks for the state of the remote job.
    fn poll(&mut self) -> (action: ResolveAction)
        ensures
            *final(self) == (ResolveJob { phase: ResolvePhase::Polling, ..*old(self) }),
            action == (ResolveAction::GetInfo { torrent_id: old(self).torrent_id }),
    {
        self.phase = ResolvePhase::Polling;
        ResolveAction::GetInfo { torrent_id: self.torrent_id.clone() }
    }

    /// Takes the state of the remote job.
    fn on_info(&mut self, info: TorrentInfo, reports: &mut Vec<ResolveReport>) -> (action:
        ResolveAction)
        requires
            old(reports).len() == 0,
        ensures
            resolve_info_effect(*old(self), info, *final(self), action, final(reports)@),
    {
        if same_text(info.status.as_str(), "downloaded") {
            reports.push(ResolveReport::UnrestrictingLinks);
            let links: Vec<String> = match info.links {
                Some(l) => l,
                None => Vec::new(),
            };
            if links.len() == 0 {
                assert(reports@ =~= seq![ResolveReport::UnrestrictingLinks]);
                self.fail(RdError::NoLinks)
            } else {
                reports.push(ResolveReport::UnrestrictingLink { index: 1, total: links.len() });
                assert(reports@ =~= seq![
                    ResolveReport::UnrestrictingLinks,
                    ResolveReport::UnrestrictingLink { index: 1, total: links.len() },
                ]);
                let first = links[0].clone();
                self.links = links;
                self.downloads = Vec::new();
                self.phase = ResolvePhase::Unrestricting;
                ResolveAction::Unrestrict { link: first }
            }
        } else if same_text(info.status.as_str(), "error") || same_text(
            info.status.as_str(),
            "dead",
        ) || same_text(info.status.as_str(), "magnet_error") {
            self.fail(RdError::TorrentFailed(info.status))
        } else {
            let progress: u64 = match info.progress {
                Some(p) => p,
                None => 0,
            };
            let speed: u64 = match info.speed {
                Some(s) => s,
                None => 0,
            };
            let seeders: u32 = match info.seeders {
                Some(s) => s,
                None => 0,
            };
            reports.push(ResolveReport::Progress { status: info.status, progress, speed, seeders });
            assert(reports@ =~= seq![
                ResolveReport::Progress { status: info.status, progress, speed, seeders },
            ]);
            self.phase = ResolvePhase::Waiting;
            ResolveAction::Wait { seconds: WAIT_INTERVAL_SECS }
        }
    }

    /// Takes a directly downloadable link.
    fn on_link(&mut self, link: UnrestrictedLink, reports: &mut Vec<ResolveReport>) -> (action:
        ResolveAction)
        requires
            old(reports).len() == 0,
        ensures
            resolve_link_effect(*old(self), link, *final(self), action, final(reports)@),
    {
        self.downloads.push((link.filename, link.download));
        let handled: usize = self.downloads.len();
        if handled < self.links.len() {
            reports.push(
                ResolveReport::UnrestrictingLink { index: handled + 1, total: self.links.len() },
            );
            assert(reports@ =~= seq![
                ResolveReport::UnrestrictingLink {
                    index: (handled + 1) as usize,
                    total: self.links.len(),
                },
            ]);
            ResolveAction::Unrestrict { link: self.links[handled].clone() }
        } else {
            let mut all: Vec<(String, String)> = Vec::new();
            std::mem::swap(&mut self.downloads, &mut all);
            self.phase = ResolvePhase::Finished;
            ResolveAction::Finish(Ok(all))
        }
    }

    /// Takes what came of the last action and says what to do next and what
    /// to let the caller know. The pauses of a resolution add up to at most
    /// `WAIT_BUDGET_SECS` seconds; it hands out links only when every link
    /// that the service reported was made directly downloadable.
    pub fn step(&mut self, event: ResolveEvent) -> (r: (ResolveAction, Vec<ResolveReport>))
        ensures
            resolve_step_effect(*old(self), event, *final(self), r.0, r.1@),
            old(self).wf() ==> final(self).wf(),
            old(self).wf() ==> final(self).wait_left() <= old(self).wait_left(),
            old(self).wf() ==> (r.0 matches ResolveAction::Wait { seconds } ==> final(self).wait_left()
                + seconds <= old(self).wait_left()),
    {
        let mut reports: Vec<ResolveReport> = Vec::new();
        let action = match self.phase {
            ResolvePhase::Selecting => match event {
                ResolveEvent::Selected(Ok(_)) => self.poll(),
                ResolveEvent::Selected(Err(e)) => self.fail(e),
                _ => self.fail(RdError::UnexpectedEvent),
            },
            ResolvePhase::Polling => match event {
                ResolveEvent::Info(Ok(info)) => self.on_info(info, &mut reports),
                ResolveEvent::Info(Err(e)) => self.fail(e),
                _ => self.fail(RdError::UnexpectedEvent),
            },
            ResolvePhase::Waiting => match event {
                ResolveEvent::Waited => {
                    if self.elapsed < WAIT_BUDGET_SECS - WAIT_INTERVAL_SECS {
                        self.elapsed = self.elapsed + WAIT_INTERVAL_SECS;
                        self.poll()
                    } else {
                        self.elapsed = WAIT_BUDGET_SECS;
                        self.fail(RdError::TorrentTimeout)
                    }
                },
                _ => self.fail(RdError::UnexpectedEvent),
            },
            ResolvePhase::Unrestricting => match event {
                ResolveEvent::Unrestricted(Ok(link)) => self.on_link(link, &mut reports),
                ResolveEvent::Unrestricted(Err(e)) => self.fail(e),
                _ => self.fail(RdError::UnexpectedEvent),
            },
            ResolvePhase::Finished => self.fail(RdError::UnexpectedEvent),
        };
        (action, reports)
    }
}

/// A resolution that hands out links hands out one for every link that the
/// service reported, and one failure while the links are handled leaves no
/// link at all.
pub proof fn lemma_all_links_or_none(
    job: ResolveJob,
    event: ResolveEvent,
    next: ResolveJob,
    action: ResolveAction,
    reports: Seq<ResolveReport>,
)
    requires
        job.wf(),
        resolve_step_effect(job, event, next, action, reports),
    ensures
        action matches ResolveAction::Finish(Ok(all)) ==> job.phase == ResolvePhase::Unrestricting
            && all@.len() == job.links.len(),
        job.phase == ResolvePhase::Unrestricting ==> (event matches ResolveEvent::Unrestricted(
            Err(e),
        ) ==> action == ResolveAction::Finish(Err(e))),
{
}

/// While links are handled, the list grows by one with every link, in the
/// order of the links that the service reported.
pub proof fn lemma_links_in_order(
    job: ResolveJob,
    link: UnrestrictedLink,
    next: ResolveJob,
    action: ResolveAction,
    reports: Seq<ResolveReport>,
)
    requires
        job.wf(),
        job.phase == ResolvePhase::Unrestricting,
        resolve_step_effect(job, ResolveEvent::Unrestricted(Ok(link)), next, action, reports),
    ensures
        match action {
            ResolveAction::Unrestrict { link: asked } => asked == job.links[job.downloads.len() + 1]
                && next.downloads@ == job.downloads@.push((link.filename, link.download)),
            ResolveAction::Finish(Ok(all)) => all@ == job.downloads@.push(
                (link.filename, link.download),
            ),
            _ => false,
        },
{
}

/// A run of a resolution: the steps taken one after the other for the
/// events of `events`, with the actions that they gave.
pub open spec fn resolve_run(
    pre: ResolveJob,
    events: Seq<ResolveEvent>,
    post: ResolveJob,
    actions: Seq<ResolveAction>,
) -> bool
    decreases events.len(),
{
    &&& actions.len() == events.len()
    &&& if events.len() == 0 {
        post == pre
    } else {
        exists|mid: ResolveJob, reports: Seq<ResolveReport>|
            resolve_run(pre, events.drop_last(), mid, actions.drop_last()) && resolve_step_effect(
                mid,
                events.last(),
                post,
                actions.last(),
                reports,
            )
    }
}

/// The seconds of pause that the actions ask for, added up.
pub open spec fn waited_seconds(actions: Seq<ResolveAction>) -> nat
    decreases actions.len(),
{
    if actions.len() == 0 {
        0
    } else {
        waited_seconds(actions.drop_last()) + match actions.last() {
            ResolveAction::Wait { seconds } => seconds as nat,
            _ => 0,
        }
    }
}

/// One step of a well-formed resolution leaves it well formed, and every
/// pause that it asks for comes off what is left.
pub proof fn lemma_resolve_step_budget(
    pre: ResolveJob,
    event: ResolveEvent,
    post: ResolveJob,
    action: ResolveAction,
    reports: Seq<ResolveReport>,
)
    requires
        pre.wf(),
        resolve_step_effect(pre, event, post, action, reports),
    ensures
        post.wf(),
        post.wait_left() <= pre.wait_left(),
        action matches ResolveAction::Wait { seconds } ==> post.wait_left() + seconds
            == pre.wait_left(),
{
}

/// However a resolution runs, its pauses add up to no more than it had
/// left: from its start, to at most three hundred seconds.
pub proof fn lemma_resolve_is_bounded(
    pre: ResolveJob,
    events: Seq<ResolveEvent>,
    post: ResolveJob,
    actions: Seq<ResolveAction>,
)
    requires
        pre.wf(),
        resolve_run(pre, events, post, actions),
    ensures
        post.wf(),
        waited_seconds(actions) + post.wait_left() <= pre.wait_left(),
        waited_seconds(actions) <= WAIT_BUDGET_SECS,
    decreases events.len(),
{
    if events.len() > 0 {
        let (mid, reports) = choose|mid: ResolveJob, reports: Seq<ResolveReport>|
            resolve_run(pre, events.drop_last(), mid, actions.drop_last()) && resolve_step_effect(
                mid,
                events.last(),
                post,
                actions.last(),
                reports,
            );
        lemma_resolve_is_bounded(pre, events.drop_last(), mid, actions.drop_last());
        lemma_resolve_step_budget(mid, events.last(), post, actions.last(), reports);
    }
}

} // verus!
