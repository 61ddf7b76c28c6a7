use github_pr_summary::config::{Config, PullAction, PullEvent};
use github_pr_summary::pipeline::{Action, Pipeline, PipelineEvent};
use github_pr_summary::report::{preamble_text, review_prompt_text, summary_prompt_text};
use github_pr_summary::tokenizer::Tokenizer;

fn pipeline() -> Pipeline {
    let cfg = Config::resolve(
        Some("bot".to_string()),
        Some("octo".to_string()),
        Some("demo".to_string()),
        Some("key".to_string()),
    );
    let tok = Tokenizer::new().expect("the cl100k_base encoding loads");
    Pipeline::new(cfg, tok)
}

fn opened_event(number: u64) -> PipelineEvent {
    PipelineEvent::Delivered(Some(PullEvent {
        action: PullAction::Opened,
        number,
        title: Some("a title".to_string()),
        author: Some("someone".to_string()),
    }))
}

#[test]
fn opened_event_runs_the_whole_pipeline_in_order() {
    let mut p = pipeline();

    // The event is screened and the patch is fetched.
    let a = p.step(opened_event(42));
    match a {
        Action::FetchPatch { url } => {
            assert_eq!(
                url,
                "https://patch-diff.githubusercontent.com/raw/octo/demo/pull/42.patch"
            );
        }
        _ => panic!("expected a fetch"),
    }

    // Two "From " blocks, each well under the ceiling: two review calls.
    let patch = "From one\naaa\nFrom two\nbbb\n".to_string();
    let mut reviews = 0;
    let mut summaries = 0;
    let a = p.step(PipelineEvent::PatchFetched(patch));
    match a {
        Action::RequestReview { session, instruction, body } => {
            reviews += 1;
            assert_eq!(session, "PR#42");
            assert_eq!(instruction, review_prompt_text());
            assert_eq!(body, "From one\naaa\n");
        }
        _ => panic!("expected the first review request"),
    }
    let a = p.step(PipelineEvent::ReviewReturned(Some("A".to_string())));
    match a {
        Action::RequestReview { session, instruction, body } => {
            reviews += 1;
            assert_eq!(session, "PR#42");
            assert_eq!(instruction, review_prompt_text());
            assert_eq!(body, "From two\nbbb\n");
        }
        _ => panic!("expected the second review request"),
    }

    // Both reviews came back: one aggregate-summary call.
    let a = p.step(PipelineEvent::ReviewReturned(Some("B".to_string())));
    match a {
        Action::RequestSummary { session, instruction, body } => {
            summaries += 1;
            assert_eq!(session, "PR#42");
            assert_eq!(instruction, summary_prompt_text());
            assert_eq!(body, "------\nA\n------\nB\n");
        }
        _ => panic!("expected the summary request"),
    }

    // The summary came back: one comment is posted, then nothing more.
    let a = p.step(PipelineEvent::SummaryReturned(Some("S".to_string())));
    match a {
        Action::PostComment { number, body } => {
            assert_eq!(number, 42);
            assert_eq!(
                body,
                format!("{}S\n\n## Details\n\n### Commit 1\nA\n\n### Commit 2\nB\n\n", preamble_text())
            );
        }
        _ => panic!("expected the comment"),
    }
    let a = p.step(PipelineEvent::CommentPosted(true));
    assert!(matches!(a, Action::Finish));
    assert_eq!(reviews, 2);
    assert_eq!(summaries, 1);
}

#[test]
fn closed_event_does_nothing() {
    let mut p = pipeline();
    let a = p.step(PipelineEvent::Delivered(Some(PullEvent {
        action: PullAction::Closed,
        number: 42,
        title: None,
        author: Some("someone".to_string()),
    })));
    assert!(matches!(a, Action::Finish));
    // The event is over: whatever arrives next, nothing more is done.
    let a = p.step(PipelineEvent::PatchFetched("From x\ny\n".to_string()));
    assert!(matches!(a, Action::Finish));
}

#[test]
fn non_pull_request_payload_does_nothing() {
    let mut p = pipeline();
    let a = p.step(PipelineEvent::Delivered(None));
    assert!(matches!(a, Action::Finish));
}

#[test]
fn missing_author_is_skipped_gracefully() {
    let mut p = pipeline();
    let a = p.step(PipelineEvent::Delivered(Some(PullEvent {
        action: PullAction::Opened,
        number: 7,
        title: None,
        author: None,
    })));
    assert!(matches!(a, Action::Finish));
}

#[test]
fn empty_patch_is_fatal_before_any_review() {
    let mut p = pipeline();
    let a = p.step(opened_event(42));
    assert!(matches!(a, Action::FetchPatch { .. }));
    let a = p.step(PipelineEvent::PatchFetched(String::new()));
    match a {
        Action::LogFatal { message } => {
            assert_eq!(message, "Cannot parse any commit from the patch file");
        }
        _ => panic!("expected the fatal diagnostic"),
    }
    let a = p.step(PipelineEvent::ReviewReturned(Some("A".to_string())));
    assert!(matches!(a, Action::Finish));
}

#[test]
fn a_failed_review_is_skipped_and_the_report_still_posts() {
    let mut p = pipeline();
    p.step(opened_event(9));
    let a = p.step(PipelineEvent::PatchFetched("From one\naaa\nFrom two\nbbb\n".to_string()));
    assert!(matches!(a, Action::RequestReview { .. }));
    // The first chunk's review fails: it is dropped, the next is requested.
    let a = p.step(PipelineEvent::ReviewReturned(None));
    assert!(matches!(a, Action::RequestReview { .. }));
    // Only one review came back: no summary call, the report posts directly.
    let a = p.step(PipelineEvent::ReviewReturned(Some("B".to_string())));
    match a {
        Action::PostComment { number, body } => {
            assert_eq!(number, 9);
            assert_eq!(body, format!("{}### Commit 1\nB\n\n", preamble_text()));
        }
        _ => panic!("expected the comment"),
    }
}

#[test]
fn all_reviews_failing_still_posts_the_bare_preamble() {
    let mut p = pipeline();
    p.step(opened_event(3));
    p.step(PipelineEvent::PatchFetched("From one\naaa\n".to_string()));
    let a = p.step(PipelineEvent::ReviewReturned(None));
    match a {
        Action::PostComment { number, body } => {
            assert_eq!(number, 3);
            assert_eq!(body, preamble_text());
        }
        _ => panic!("expected the comment"),
    }
}

#[test]
fn a_failed_summary_posts_the_report_without_details() {
    let mut p = pipeline();
    p.step(opened_event(5));
    p.step(PipelineEvent::PatchFetched("From one\naaa\nFrom two\nbbb\n".to_string()));
    p.step(PipelineEvent::ReviewReturned(Some("A".to_string())));
    let a = p.step(PipelineEvent::ReviewReturned(Some("B".to_string())));
    assert!(matches!(a, Action::RequestSummary { .. }));
    let a = p.step(PipelineEvent::SummaryReturned(None));
    match a {
        Action::PostComment { body, .. } => {
            assert!(!body.contains("## Details"));
            assert!(body.contains("### Commit 1\nA\n\n"));
            assert!(body.contains("### Commit 2\nB\n\n"));
        }
        _ => panic!("expected the comment"),
    }
}

#[test]
fn a_failed_post_is_fatal() {
    let mut p = pipeline();
    p.step(opened_event(5));
    p.step(PipelineEvent::PatchFetched("From one\naaa\n".to_string()));
    p.step(PipelineEvent::ReviewReturned(Some("A".to_string())));
    let a = p.step(PipelineEvent::CommentPosted(false));
    match a {
        Action::LogFatal { message } => assert_eq!(message, "Failed to post the comment"),
        _ => panic!("expected the fatal diagnostic"),
    }
}
