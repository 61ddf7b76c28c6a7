use github_pr_summary::report::{
    collect_review, compose_report, concat_reviews, needs_summary, preamble_text,
    review_prompt_text, summary_prompt_text,
};

const PREAMBLE: &str = "Hello, I am a [serverless review bot](https://github.com/flows-network/github-pr-summary/) on [flows.network](https://flows.network/). Here are my reviews of code commits in this PR.\n\n------\n\n";

#[test]
fn preamble_is_the_fixed_boilerplate() {
    assert_eq!(preamble_text(), PREAMBLE);
}

#[test]
fn no_reviews_give_a_bare_preamble() {
    let reviews: Vec<String> = Vec::new();
    let report = compose_report(&reviews, None);
    assert_eq!(report, PREAMBLE);
    assert!(!report.contains("## Details"));
    assert!(!report.contains("Commit"));
    assert!(!needs_summary(&reviews));
}

#[test]
fn one_review_gives_one_section_and_no_summary() {
    let reviews = vec!["A".to_string()];
    assert!(!needs_summary(&reviews));
    let report = compose_report(&reviews, None);
    assert_eq!(report, format!("{PREAMBLE}### Commit 1\nA\n\n"));
    assert!(report.contains("### Commit 1"));
    assert!(report.contains("A"));
    assert!(!report.contains("## Details"));
}

#[test]
fn two_reviews_ask_for_a_summary_and_give_two_sections() {
    let reviews = vec!["A".to_string(), "B".to_string()];
    assert!(needs_summary(&reviews));
    let report = compose_report(&reviews, Some("S".to_string()));
    assert_eq!(
        report,
        format!("{PREAMBLE}S\n\n## Details\n\n### Commit 1\nA\n\n### Commit 2\nB\n\n")
    );
    assert!(report.contains("## Details"));
    assert!(report.contains("### Commit 1"));
    assert!(report.contains("### Commit 2"));
}

#[test]
fn a_failed_summary_is_simply_omitted() {
    let reviews = vec!["A".to_string(), "B".to_string()];
    let report = compose_report(&reviews, None);
    assert_eq!(report, format!("{PREAMBLE}### Commit 1\nA\n\n### Commit 2\nB\n\n"));
    assert!(!report.contains("## Details"));
}

#[test]
fn the_review_log_delimits_each_review() {
    let reviews = vec!["A".to_string(), "B".to_string()];
    assert_eq!(concat_reviews(&reviews), "------\nA\n------\nB\n");
    assert_eq!(concat_reviews(&Vec::new()), "");
}

#[test]
fn collect_review_keeps_successes_in_order_and_skips_failures() {
    let mut reviews: Vec<String> = Vec::new();
    collect_review(&mut reviews, Some("one".to_string()));
    collect_review(&mut reviews, None);
    collect_review(&mut reviews, Some("two".to_string()));
    assert_eq!(reviews, vec!["one".to_string(), "two".to_string()]);
}

#[test]
fn ten_or_more_reviews_number_in_decimal() {
    let reviews: Vec<String> = (0..12).map(|i| format!("r{i}")).collect();
    let report = compose_report(&reviews, None);
    assert!(report.contains("### Commit 1\nr0\n\n"));
    assert!(report.contains("### Commit 10\nr9\n\n"));
    assert!(report.contains("### Commit 12\nr11\n\n"));
}

#[test]
fn the_prompts_are_the_fixed_instructions() {
    let review = review_prompt_text();
    assert!(review.starts_with("Act as a review expert for GitHub Pull Requests."));
    assert!(review.contains("**PR Number:** [insert PR number]"));
    assert!(review.contains("**Additional Comments:**"));
    let summary = summary_prompt_text();
    assert!(summary.starts_with("In the next messge,"));
    assert!(summary.contains("Each review starts with a ------ line."));
}
