use crate::realdebrid::{RdError, TorrentFile, TorrentInfo, files_of, listed_files};
use crate::text::same_text;
use vstd::prelude::*;
use vstd::string::*;

verus! {

/// How often the state of a submitted magnet is asked for at most.
pub const POLL_LIMIT: u32 = 30;

/// The pause between two such questions, in seconds.
pub const POLL_INTERVAL_SECS: u64 = 1;

/// Where the submission of a magnet link stands.
#[derive(Clone, Copy, Debug, PartialEq, Eq, Structural)]
pub enum SubmitPhase {
    /// The magnet link was sent; the remote job's identifier is awaited.
    Adding,
    /// The state of the remote job was asked for.
    Polling,
    /// The job pauses before it asks again.
    Waiting,
    /// The service refused the magnet; the remote job is being deleted.
    DeletingInvalid,
    /// The budget is used up; the remote job is being deleted.
    DeletingTimedOut,
    /// The outcome was handed out.
    Finished,
}

/// The submission of one magnet link: it says what to do next and takes what
/// came of it.
#[derive(Debug)]
pub struct SubmitJob {
    pub phase: SubmitPhase,
    /// The identifier of the remote job; empty until the service gave it.
    pub torrent_id: String,
    /// How often the state of the remote job was asked for.
    pub polls: u32,
}

/// What the caller is to do next for a submission.
#[derive(Debug)]
pub enum SubmitAction {
    AddMagnet { magnet: String },
    GetInfo { torrent_id: String },
    Wait { seconds: u64 },
    /// Delete the remote job; whether that works does not matter.
    Delete { torrent_id: String },
    /// The submission is over, with the remote job's identifier and files or
    /// with the reason of the failure.
    Finish(Result<(String, Vec<TorrentFile>), RdError>),
}

/// What came of the last action.
#[derive(Debug)]
pub enum SubmitEvent {
    Added(Result<String, RdError>),
    Info(Result<TorrentInfo, RdError>),
    Waited,
    Deleted,
}

/// The submission is over with the failure `e`.
pub open spec fn submit_failed(pre: SubmitJob, post: SubmitJob, action: SubmitAction, e: RdError) -> bool {
    post == (SubmitJob { phase: SubmitPhase::Finished, ..pre }) && action == SubmitAction::Finish(
        Err(e),
    )
}

/// The remote job is to be deleted, and the submission goes to `phase`.
pub open spec fn submit_deletes(
    pre: SubmitJob,
    post: SubmitJob,
    action: SubmitAction,
    phase: SubmitPhase,
) -> bool {
    post == (SubmitJob { phase: phase, ..pre }) && action == (SubmitAction::Delete {
        torrent_id: pre.torrent_id,
    })
}

/// What the state of the remote job does to a submission that asked for it.
pub open spec fn submit_info_effect(
    pre: SubmitJob,
    info: TorrentInfo,
    post: SubmitJob,
    action: SubmitAction,
) -> bool {
    if info.status@ == "waiting_files_selection"@ {
        &&& post == (SubmitJob { phase: SubmitPhase::Finished, ..pre })
        &&& action matches SubmitAction::Finish(Ok(listing))
        &&& listing.0 == pre.torrent_id
        &&& listing.1@ == listed_files(info.files)
    } else if info.status@ == "magnet_error"@ {
        submit_deletes(pre, post, action, SubmitPhase::DeletingInvalid)
    } else {
        post == (SubmitJob { phase: SubmitPhase::Waiting, ..pre }) && action == (SubmitAction::Wait {
            seconds: POLL_INTERVAL_SECS,
        })
    }
}

/// The step of a submission: from its state and what came of the last action
/// to its next state and the next action.
pub open spec fn submit_step_effect(
    pre: SubmitJob,
    event: SubmitEvent,
    post: SubmitJob,
    action: SubmitAction,
) -> bool {
    match (pre.phase, event) {
        (SubmitPhase::Adding, SubmitEvent::Added(Ok(id))) => {
            &&& post == (SubmitJob { phase: SubmitPhase::Polling, torrent_id: id, polls: 1 })
            &&& action == (SubmitAction::GetInfo { torrent_id: id })
        },
        (SubmitPhase::Adding, SubmitEvent::Added(Err(e))) => submit_failed(pre, post, action, e),
        (SubmitPhase::Polling, SubmitEvent::Info(Ok(info))) => submit_info_effect(
            pre,
            info,
            post,
            action,
        ),
        (SubmitPhase::Polling, SubmitEvent::Info(Err(e))) => submit_failed(pre, post, action, e),
        (SubmitPhase::Waiting, SubmitEvent::Waited) => if pre.polls < POLL_LIMIT {
            &&& post == (SubmitJob {
                phase: SubmitPhase::Polling,
                polls: (pre.polls + 1) as u32,
                ..pre
            })
            &&& action == (SubmitAction::GetInfo { torrent_id: pre.torrent_id })
        } else {
            submit_deletes(pre, post, action, SubmitPhase::DeletingTimedOut)
        },
        (SubmitPhase::DeletingInvalid, SubmitEvent::Deleted) => submit_failed(
            pre,
            post,
            action,
            RdError::InvalidMagnet,
        ),
        (SubmitPhase::DeletingTimedOut, SubmitEvent::Deleted) => submit_failed(
            pre,
            post,
            action,
            RdError::MagnetTimeout,
        ),
        _ => submit_failed(pre, post, action, RdError::UnexpectedEvent),
    }
}

impl SubmitJob {
    /// The count of polls is within the budget: none was made before the
    /// remote job is known, and at least one once it is.
    pub open spec fn wf(self) -> bool {
        &&& self.polls <= POLL_LIMIT
        &&& self.phase == SubmitPhase::Adding ==> self.polls == 0
        &&& (self.phase == SubmitPhase::Polling || self.phase == SubmitPhase::Waiting)
            ==> self.polls >= 1
    }

    /// How many pauses the submission can still ask for.
    pub open spec fn waits_left(self) -> nat {
        match self.phase {
            SubmitPhase::Adding => POLL_LIMIT as nat,
            SubmitPhase::Polling => (POLL_LIMIT - self.polls + 1) as nat,
            SubmitPhase::Waiting => (POLL_LIMIT - self.polls) as nat,
            _ => 0,
        }
    }

    /// How many steps the submission can still take at most.
    pub open spec fn steps_left(self) -> nat {
        match self.phase {
            SubmitPhase::Adding => (2 * POLL_LIMIT + 4) as nat,
            SubmitPhase::Polling => (2 * (POLL_LIMIT - self.polls) + 3) as nat,
            SubmitPhase::Waiting => (2 * (POLL_LIMIT - self.polls) + 2) as nat,
            SubmitPhase::DeletingInvalid => 1,
            SubmitPhase::DeletingTimedOut => 1,
            SubmitPhase::Finished => 0,
        }
    }

    /// Begins the submission of `magnet`: the first action sends it.
    pub fn start(magnet: String) -> (r: (SubmitJob, SubmitAction))
        ensures
            r.0.wf(),
            r.0.phase == SubmitPhase::Adding,
            r.0.polls == 0,
            r.1 == (SubmitAction::AddMagnet { magnet: magnet }),
    {
        (
            SubmitJob { phase: SubmitPhase::Adding, torrent_id: String::new(), polls: 0 },
            SubmitAction::AddMagnet { magnet },
        )
    }

    /// Whether the outcome was handed out.
    pub fn is_finished(&self) -> (b: bool)
        ensures
            b == (self.phase == SubmitPhase::Finished),
    {
        self.phase == SubmitPhase::Finished
    }

    /// Ends the submission with the failure `e`.
    fn fail(&mut self, e: RdError) -> (action: SubmitAction)
        ensures
            submit_failed(*old(self), *final(self), action, e),
    {
        self.phase = SubmitPhase::Finished;
        SubmitAction::Finish(Err(e))
    }

    /// Asks for the remote job to be deleted and goes to `phase`.
    fn delete(&mut self, phase: SubmitPhase) -> (action: SubmitAction)
        ensures
            submit_deletes(*old(self), *final(self), action, phase),
    {
        self.phase = phase;
        SubmitAction::Delete { torrent_id: self.torrent_id.clone() }
    }

    /// Takes the state of the remote job: the listing ends the submission, a
    /// refused magnet has the remote job deleted, anything else has the
    /// submission pause.
    fn on_info(&mut self, info: TorrentInfo) -> (action: SubmitAction)
        ensures
            submit_info_effect(*old(self), info, *final(self), action),
    {
        if same_text(info.status.as_str(), "waiting_files_selection") {
            self.phase = SubmitPhase::Finished;
            SubmitAction::Finish(Ok((self.torrent_id.clone(), files_of(info.files))))
        } else if same_text(info.status.as_str(), "magnet_error") {
            self.delete(SubmitPhase::DeletingInvalid)
        } else {
            self.phase = SubmitPhase::Waiting;
            SubmitAction::Wait { seconds: POLL_INTERVAL_SECS }
        }
    }

    /// Takes what came of the last action and says what to do next. The
    /// submission asks for the state of the remote job at most `POLL_LIMIT`
    /// times, with a pause after each, and ends at the latest with the
    /// deletion of the remote job after the last pause.
    pub fn step(&mut self, event: SubmitEvent) -> (action: SubmitAction)
        ensures
            submit_step_effect(*old(self), event, *final(self), action),
            old(self).wf() ==> final(self).wf(),
            old(self).wf() && old(self).phase != SubmitPhase::Finished ==> final(self).steps_left()
                < old(self).steps_left(),
            old(self).wf() ==> final(self).waits_left() <= old(self).waits_left(),
            old(self).wf() && action is Wait ==> final(self).waits_left() < old(self).waits_left(),
    {
        match self.phase {
            SubmitPhase::Adding => match event {
                SubmitEvent::Added(Ok(id)) => {
                    self.phase = SubmitPhase::Polling;
                    self.polls = 1;
                    self.torrent_id = id.clone();
                    SubmitAction::GetInfo { torrent_id: id }
                },
                SubmitEvent::Added(Err(e)) => self.fail(e),
                _ => self.fail(RdError::UnexpectedEvent),
            },
            SubmitPhase::Polling => match event {
                SubmitEvent::Info(Ok(info)) => self.on_info(info),
                SubmitEvent::Info(Err(e)) => self.fail(e),
                _ => self.fail(RdError::UnexpectedEvent),
            },
            SubmitPhase::Waiting => match event {
                SubmitEvent::Waited => {
                    if self.polls < POLL_LIMIT {
                        self.phase = SubmitPhase::Polling;
                        self.polls = self.polls + 1;
                        SubmitAction::GetInfo { torrent_id: self.torrent_id.clone() }
                    } else {
                        self.delete(SubmitPhase::DeletingTimedOut)
                    }
                },
                _ => self.fail(RdError::UnexpectedEvent),
            },
            SubmitPhase::DeletingInvalid => match event {
                SubmitEvent::Deleted => self.fail(RdError::InvalidMagnet),
                _ => self.fail(RdError::UnexpectedEvent),
            },
            SubmitPhase::DeletingTimedOut => match event {
                SubmitEvent::Deleted => self.fail(RdError::MagnetTimeout),
                _ => self.fail(RdError::UnexpectedEvent),
            },
            SubmitPhase::Finished => self.fail(RdError::UnexpectedEvent),
        }
    }
}

/// A magnet that the service refuses is deleted at once and the submission
/// then ends with that failure: whatever the job did before, the answer
/// "magnet_error" to a poll leads to the deletion of the remote job, and the
/// step after it to the outcome.
pub proof fn lemma_refused_magnet_is_deleted(
    job: SubmitJob,
    info: TorrentInfo,
    mid: SubmitJob,
    first: SubmitAction,
    end: SubmitJob,
    second: SubmitAction,
)
    requires
        job.phase == SubmitPhase::Polling,
        info.status@ == "magnet_error"@,
        submit_step_effect(job, SubmitEvent::Info(Ok(info)), mid, first),
        submit_step_effect(mid, SubmitEvent::Deleted, end, second),
    ensures
        first == (SubmitAction::Delete { torrent_id: job.torrent_id }),
        second == SubmitAction::Finish(Err(RdError::InvalidMagnet)),
        end.phase == SubmitPhase::Finished,
{
    reveal_strlit("magnet_error");
    reveal_strlit("waiting_files_selection");
    assert("magnet_error"@.len() != "waiting_files_selection"@.len());
}

/// A submission ends with a listing or with a typed failure, and a step of a
/// finished submission changes nothing more.
pub proof fn lemma_submit_outcome_is_final(
    job: SubmitJob,
    event: SubmitEvent,
    next: SubmitJob,
    action: SubmitAction,
)
    requires
        submit_step_effect(job, event, next, action),
    ensures
        action is Finish <==> next.phase == SubmitPhase::Finished,
        job.phase == SubmitPhase::Finished ==> next == job,
{
}

/// A run of a submission: the steps taken one after the other for the
/// events of `events`, with the actions that they gave.
pub open spec fn submit_run(
    pre: SubmitJob,
    events: Seq<SubmitEvent>,
    post: SubmitJob,
    actions: Seq<SubmitAction>,
) -> bool
    decreases events.len(),
{
    &&& actions.len() == events.len()
    &&& if events.len() == 0 {
        post == pre
    } else {
        exists|mid: SubmitJob|
            submit_run(pre, events.drop_last(), mid, actions.drop_last()) && submit_step_effect(
                mid,
                events.last(),
                post,
                actions.last(),
            )
    }
}

/// The seconds of pause that the actions ask for, added up.
pub open spec fn paused_seconds(actions: Seq<SubmitAction>) -> nat
    decreases actions.len(),
{
    if actions.len() == 0 {
        0
    } else {
        paused_seconds(actions.drop_last()) + match actions.last() {
            SubmitAction::Wait { seconds } => seconds as nat,
            _ => 0,
        }
    }
}

/// The questions for the state of the remote job among the actions.
pub open spec fn polls_asked(actions: Seq<SubmitAction>) -> nat
    decreases actions.len(),
{
    if actions.len() == 0 {
        0
    } else {
        polls_asked(actions.drop_last()) + if actions.last() is GetInfo {
            1nat
        } else {
            0nat
        }
    }
}

/// One step of a well-formed submission leaves it well formed, and every
/// pause and every poll that it asks for comes off what is left.
pub proof fn lemma_submit_step_budget(
    pre: SubmitJob,
    event: SubmitEvent,
    post: SubmitJob,
    action: SubmitAction,
)
    requires
        pre.wf(),
        submit_step_effect(pre, event, post, action),
    ensures
        post.wf(),
        post.waits_left() <= pre.waits_left(),
        action matches SubmitAction::Wait { seconds } ==> seconds == POLL_INTERVAL_SECS
            && post.waits_left() + 1 == pre.waits_left(),
        post.polls >= pre.polls,
        action is GetInfo ==> post.polls == pre.polls + 1,
{
}

/// However a submission runs, it pauses for at most as many seconds as it
/// had pauses left and asks for the state of the remote job no more often
/// than its budget allows: from its start, at most thirty seconds in all and
/// at most thirty polls.
pub proof fn lemma_submit_is_bounded(
    pre: SubmitJob,
    events: Seq<SubmitEvent>,
    post: SubmitJob,
    actions: Seq<SubmitAction>,
)
    requires
        pre.wf(),
        submit_run(pre, events, post, actions),
    ensures
        post.wf(),
        paused_seconds(actions) + post.waits_left() <= pre.waits_left(),
        paused_seconds(actions) <= POLL_LIMIT * POLL_INTERVAL_SECS,
        pre.polls + polls_asked(actions) == post.polls,
        polls_asked(actions) <= POLL_LIMIT,
    decreases events.len(),
{
    if events.len() > 0 {
        let mid = choose|mid: SubmitJob|
            submit_run(pre, events.drop_last(), mid, actions.drop_last()) && submit_step_effect(
                mid,
                events.last(),
                post,
                actions.last(),
            );
        lemma_submit_is_bounded(pre, events.drop_last(), mid, actions.drop_last());
        lemma_submit_step_budget(mid, events.last(), post, actions.last());
    }
}

} // verus!
