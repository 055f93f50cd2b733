//! The periodic posting: one job per registered channel.

use vstd::prelude::*;

use crate::client::{tag_query, BooruClient, RANDOM_POST_PATH};
use crate::model::Hook;

verus! {

/// Seconds between two rounds of posting.
pub const POST_INTERVAL_SECS: u64 = 60;

/// What one round does for one registered channel: fetch a random post from
/// `post_url`, then post its embed through the webhook with this id and token.
#[derive(Debug)]
pub struct HookJob {
    pub post_url: String,
    pub webhook_id: u64,
    pub webhook_token: String,
}

/// The jobs of one round: one for every stored hook, in order, whether or not
/// it is enabled.
pub fn plan_hook_jobs(client: &BooruClient, hooks: &Vec<Hook>) -> (r: Vec<HookJob>)
    ensures
        r@.len() == hooks@.len(),
        forall|i: int|
            0 <= i < hooks@.len() ==> {
                &&& (#[trigger] r@[i]).post_url@ == client.request_url(
                    RANDOM_POST_PATH@,
                    tag_query(hooks@[i].tag@),
                )
                &&& r@[i].webhook_id == hooks@[i].hook_id as u64
                &&& r@[i].webhook_token@ == hooks@[i].hook_token@
            },
{
    let mut jobs: Vec<HookJob> = Vec::new();
    let n = hooks.len();
    for i in 0..n
        invariant
            n == hooks@.len(),
            jobs@.len() == i,
            forall|j: int|
                0 <= j < i ==> {
                    &&& (#[trigger] jobs@[j]).post_url@ == client.request_url(
                        RANDOM_POST_PATH@,
                        tag_query(hooks@[j].tag@),
                    )
                    &&& jobs@[j].webhook_id == hooks@[j].hook_id as u64
                    &&& jobs@[j].webhook_token@ == hooks@[j].hook_token@
                },
    {
        let hook = &hooks[i];
        let job = HookJob {
            post_url: client.random_post_url(hook.tag.as_str()),
            webhook_id: hook.hook_id as u64,
            webhook_token: hook.hook_token.clone(),
        };
        jobs.push(job);
    }
    jobs
}

/// Where one job of a round stands.
#[derive(Debug, Clone, Copy, PartialEq, Eq, Structural)]
pub enum JobStage {
    /// Fetching the random post.
    FetchPost,
    /// Opening the hook's webhook.
    OpenWebhook,
    /// Sending the post's embed through the webhook.
    Send,
    /// Over.
    Done,
}

/// What a job does after a stage.
#[derive(Debug, Clone, Copy, PartialEq, Eq, Structural)]
pub enum JobAction {
    /// Go on with this stage.
    Continue { stage: JobStage },
    /// Give up on this hook (after logging the error); the other hooks of the
    /// round go on.
    GiveUp,
    /// Nothing more.
    Finish,
}

/// The action after `stage` succeeded or failed: fetch the post, then open the
/// webhook, then send; a failure ends the job.
pub open spec fn job_next_spec(stage: JobStage, succeeded: bool) -> JobAction {
    match stage {
        JobStage::Done => JobAction::Finish,
        _ => if !succeeded {
            JobAction::GiveUp
        } else {
            match stage {
                JobStage::FetchPost => JobAction::Continue { stage: JobStage::OpenWebhook },
                JobStage::OpenWebhook => JobAction::Continue { stage: JobStage::Send },
                _ => JobAction::Finish,
            }
        },
    }
}

/// The action after `stage` succeeded or failed.
pub fn job_next(stage: JobStage, succeeded: bool) -> (r: JobAction)
    ensures
        r == job_next_spec(stage, succeeded),
{
    match stage {
        JobStage::Done => JobAction::Finish,
        JobStage::FetchPost => if succeeded {
            JobAction::Continue { stage: JobStage::OpenWebhook }
        } else {
            JobAction::GiveUp
        },
        JobStage::OpenWebhook => if succeeded {
            JobAction::Continue { stage: JobStage::Send }
        } else {
            JobAction::GiveUp
        },
        JobStage::Send => if succeeded {
            JobAction::Finish
        } else {
            JobAction::GiveUp
        },
    }
}

} // verus!
