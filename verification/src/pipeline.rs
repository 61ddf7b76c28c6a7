//! The event-driven pipeline for one pull-request event: what to fetch,
//! which review and summary requests to issue, and what to post back. The
//! pipeline decides; its caller performs each returned action and hands the
//! outcome back as the next event.

use vstd::prelude::*;
use vstd::string::*;

use crate::config::{screen_event, screened, Config, PullEvent};
use crate::decimal::{dec_digits, push_decimal};
use crate::report::{
    collect_review, compose_report, concat_reviews, needs_summary, report, review_log,
    review_prompt, review_prompt_text, summary_prompt, summary_prompt_text,
};
use crate::splitter::{split_commits, split_patch};
use crate::tokenizer::Tokenizer;

verus! {

/// The token ceiling a chunk is grown under, against the model's 4096-token
/// context window.
pub const TOKEN_CEILING: usize = 3800;

/// Where the raw patch of a pull request is fetched from.
pub open spec fn patch_url_spec(owner: Seq<char>, repo: Seq<char>, number: nat) -> Seq<char> {
    "https://patch-diff.githubusercontent.com/raw/"@ + owner + "/"@ + repo + "/pull/"@
        + dec_digits(number) + ".patch"@
}

/// The URL the raw patch of this pull request is fetched from.
pub fn patch_url(owner: &str, repo: &str, number: u64) -> (url: String)
    ensures
        url@ == patch_url_spec(owner@, repo@, number as nat),
{
    let mut url = "https://patch-diff.githubusercontent.com/raw/".to_owned();
    url.append(owner);
    url.append("/");
    url.append(repo);
    url.append("/pull/");
    push_decimal(&mut url, number);
    url.append(".patch");
    proof {
        assert(url@ =~= patch_url_spec(owner@, repo@, number as nat));
    }
    url
}

/// The conversation key shared by all completion calls for one pull
/// request.
pub open spec fn session_id_spec(number: nat) -> Seq<char> {
    "PR#"@ + dec_digits(number)
}

/// The conversation key shared by all completion calls for this pull
/// request.
pub fn session_id(number: u64) -> (s: String)
    ensures
        s@ == session_id_spec(number as nat),
{
    let mut s = "PR#".to_owned();
    push_decimal(&mut s, number);
    proof {
        assert(s@ =~= session_id_spec(number as nat));
    }
    s
}

/// The outcome of the last action, handed back to the pipeline.
pub enum PipelineEvent {
    /// A webhook payload arrived: the pull-request event read from it, if
    /// it was one.
    Delivered(Option<PullEvent>),
    /// The raw patch text came back from the patch host.
    PatchFetched(String),
    /// A per-commit review request returned, with its text on success.
    ReviewReturned(Option<String>),
    /// The aggregate-summary request returned, with its text on success.
    SummaryReturned(Option<String>),
    /// Posting the comment succeeded or failed.
    CommentPosted(bool),
}

/// What the caller must do next.
pub enum Action {
    /// Fetch the raw patch text at this URL.
    FetchPatch { url: String },
    /// Ask the completion backend to review one commit chunk.
    RequestReview { session: String, instruction: String, body: String },
    /// Ask the completion backend for the aggregate summary of all reviews.
    RequestSummary { session: String, instruction: String, body: String },
    /// Post the composed report as one comment on the pull request.
    PostComment { number: u64, body: String },
    /// The event is over: report the failure on the diagnostic channel.
    LogFatal { message: String },
    /// The event is over; nothing is left to do.
    Finish,
}

/// Where the pipeline stands between actions.
pub enum Stage {
    /// Waiting for an event to be delivered.
    Idle,
    /// The patch of this pull request was requested.
    AwaitPatch { number: u64 },
    /// Chunk `next - 1` is out for review; `reviews` holds what came back
    /// so far.
    Reviewing { number: u64, chunks: Vec<String>, next: usize, reviews: Vec<String> },
    /// The aggregate summary of `reviews` was requested.
    AwaitSummary { number: u64, reviews: Vec<String> },
    /// The report was handed off for posting.
    AwaitPost { number: u64 },
    /// The event is fully processed.
    Done,
}

/// The pipeline for one pull-request event.
pub struct Pipeline {
    pub cfg: Config,
    pub tokenizer: Tokenizer,
    pub stage: Stage,
}

/// What one step of the pipeline does: how the stage moves and which action
/// comes back, for every stage and event.
pub open spec fn step_spec(pre: Pipeline, post: Pipeline, ev: PipelineEvent, a: Action) -> bool {
    &&& post.cfg == pre.cfg
    &&& post.tokenizer == pre.tokenizer
    &&& match (pre.stage, ev) {
        (Stage::Idle, PipelineEvent::Delivered(pe)) => match screened(pe) {
            Some(n) => {
                &&& post.stage matches Stage::AwaitPatch { number } && number == n
                &&& a matches Action::FetchPatch { url } && url@ == patch_url_spec(
                    pre.cfg.owner@,
                    pre.cfg.repo@,
                    n as nat,
                )
            },
            None => post.stage is Done && a is Finish,
        },
        (Stage::AwaitPatch { number }, PipelineEvent::PatchFetched(patch)) => {
            let chunks = split_commits(patch@, TOKEN_CEILING as int);
            if chunks.len() == 0 {
                &&& post.stage is Done
                &&& a matches Action::LogFatal { message } && message@
                    == "Cannot parse any commit from the patch file"@
            } else {
                &&& post.stage matches Stage::Reviewing { number: n2, chunks: cv, next, reviews }
                    && n2 == number && cv.deep_view() == chunks && next == 1 && reviews@
                    == Seq::<String>::empty()
                &&& a matches Action::RequestReview { session, instruction, body } && session@
                    == session_id_spec(number as nat) && instruction@ == review_prompt() && body@
                    == chunks[0]
            }
        },
        (
            Stage::Reviewing { number, chunks, next, reviews },
            PipelineEvent::ReviewReturned(r),
        ) => {
            let collected = match r {
                Some(t) => reviews.deep_view().push(t@),
                None => reviews.deep_view(),
            };
            if (next as int) < chunks@.len() {
                &&& post.stage matches Stage::Reviewing {
                    number: n2,
                    chunks: c2,
                    next: x2,
                    reviews: r2,
                } && n2 == number && c2@ == chunks@ && x2 == next + 1 && r2.deep_view()
                    == collected
                &&& a matches Action::RequestReview { session, instruction, body } && session@
                    == session_id_spec(number as nat) && instruction@ == review_prompt() && body@
                    == chunks.deep_view()[next as int]
            } else if collected.len() > 1 {
                &&& post.stage matches Stage::AwaitSummary { number: n2, reviews: r2 } && n2
                    == number && r2.deep_view() == collected
                &&& a matches Action::RequestSummary { session, instruction, body } && session@
                    == session_id_spec(number as nat) && instruction@ == summary_prompt() && body@
                    == review_log(collected)
            } else {
                &&& post.stage matches Stage::AwaitPost { number: n2 } && n2 == number
                &&& a matches Action::PostComment { number: n3, body } && n3 == number && body@
                    == report(collected, None)
            }
        },
        (Stage::AwaitSummary { number, reviews }, PipelineEvent::SummaryReturned(s)) => {
            &&& post.stage matches Stage::AwaitPost { number: n2 } && n2 == number
            &&& a matches Action::PostComment { number: n3, body } && n3 == number && body@
                == report(reviews.deep_view(), s.deep_view())
        },
        (Stage::AwaitPost { number }, PipelineEvent::CommentPosted(ok)) => {
            &&& post.stage is Done
            &&& if ok {
                a is Finish
            } else {
                a matches Action::LogFatal { message } && message@
                    == "Failed to post the comment"@
            }
        },
        _ => post.stage is Done && a is Finish,
    }
}

/// Holds of every stage the pipeline reaches: while chunks are under
/// review, exactly one is out at a time, and fewer reviews have come back
/// than chunks were sent out.
pub open spec fn stage_inv(st: Stage) -> bool {
    match st {
        Stage::Reviewing { number, chunks, next, reviews } => {
            &&& 1 <= next as int <= chunks@.len()
            &&& reviews@.len() < next as int
        },
        _ => true,
    }
}

/// Law: a step never collects more reviews than chunks were sent out; the
/// review bound holds in every reachable stage.
pub proof fn lemma_step_preserves_stage_inv(
    pre: Pipeline,
    post: Pipeline,
    ev: PipelineEvent,
    a: Action,
)
    requires
        step_spec(pre, post, ev, a),
        stage_inv(pre.stage),
    ensures
        stage_inv(post.stage),
{
    match post.stage {
        Stage::Reviewing { number, chunks, next, reviews } => {
            assert(chunks.deep_view().len() == chunks@.len());
            assert(reviews.deep_view().len() == reviews@.len());
        },
        _ => {},
    }
}

impl Pipeline {
    /// A fresh pipeline, waiting for an event.
    pub fn new(cfg: Config, tokenizer: Tokenizer) -> (p: Pipeline)
        ensures
            p.cfg == cfg,
            p.tokenizer == tokenizer,
            p.stage is Idle,
    {
        Pipeline { cfg, tokenizer, stage: Stage::Idle }
    }

    /// Moves the pipeline by one event and says what to do next.
    pub fn step(&mut self, ev: PipelineEvent) -> (a: Action)
        ensures
            step_spec(*old(self), *final(self), ev, a),
    {
        let mut stage = Stage::Done;
        core::mem::swap(&mut self.stage, &mut stage);
        match (stage, ev) {
            (Stage::Idle, PipelineEvent::Delivered(pe)) => {
                match screen_event(&pe) {
                    Some(n) => {
                        self.stage = Stage::AwaitPatch { number: n };
                        Action::FetchPatch {
                            url: patch_url(self.cfg.owner.as_str(), self.cfg.repo.as_str(), n),
                        }
                    },
                    None => {
                        self.stage = Stage::Done;
                        Action::Finish
                    },
                }
            },
            (Stage::AwaitPatch { number }, PipelineEvent::PatchFetched(patch)) => {
                let chunks = split_patch(&self.tokenizer, patch.as_str(), TOKEN_CEILING);
                if chunks.len() == 0 {
                    self.stage = Stage::Done;
                    Action::LogFatal {
                        message: "Cannot parse any commit from the patch file".to_owned(),
                    }
                } else {
                    let body = chunks[0].clone();
                    let session = session_id(number);
                    self.stage = Stage::Reviewing { number, chunks, next: 1, reviews: Vec::new() };
                    Action::RequestReview { session, instruction: review_prompt_text(), body }
                }
            },
            (Stage::Reviewing { number, chunks, next, mut reviews }, PipelineEvent::ReviewReturned(
                r,
            )) => {
                let ghost pre_reviews = reviews.deep_view();
                collect_review(&mut reviews, r);
                proof {
                    assert(reviews.deep_view() =~= (match r {
                        Some(t) => pre_reviews.push(t@),
                        None => pre_reviews,
                    }));
                }
                if next < chunks.len() {
                    let body = chunks[next].clone();
                    let session = session_id(number);
                    self.stage = Stage::Reviewing { number, chunks, next: next + 1, reviews };
                    Action::RequestReview { session, instruction: review_prompt_text(), body }
                } else if needs_summary(&reviews) {
                    let body = concat_reviews(&reviews);
                    let session = session_id(number);
                    proof {
                        assert(reviews.deep_view().len() == reviews@.len());
                    }
                    self.stage = Stage::AwaitSummary { number, reviews };
                    Action::RequestSummary { session, instruction: summary_prompt_text(), body }
                } else {
                    let body = compose_report(&reviews, None);
                    proof {
                        assert(reviews.deep_view().len() == reviews@.len());
                    }
                    self.stage = Stage::AwaitPost { number };
                    Action::PostComment { number, body }
                }
            },
            (Stage::AwaitSummary { number, reviews }, PipelineEvent::SummaryReturned(s)) => {
                let body = compose_report(&reviews, s);
                self.stage = Stage::AwaitPost { number };
                Action::PostComment { number, body }
            },
            (Stage::AwaitPost { number: _ }, PipelineEvent::CommentPosted(ok)) => {
                self.stage = Stage::Done;
                if ok {
                    Action::Finish
                } else {
                    Action::LogFatal { message: "Failed to post the comment".to_owned() }
                }
            },
            (_, _) => {
                self.stage = Stage::Done;
                Action::Finish
            },
        }
    }
}

} // verus!
