//! Composing the final report: the fixed prompts handed to the completion
//! backend, the concatenated review log, and the posted comment with its
//! optional summary and its numbered per-commit sections.

use vstd::prelude::*;
use vstd::string::*;

use crate::decimal::{dec_digits, push_decimal};

verus! {

/// The boilerplate the report always opens with.
pub open spec fn preamble() -> Seq<char> {
    "Hello, I am a [serverless review bot](https://github.com/flows-network/github-pr-summary/) on [flows.network](https://flows.network/). Here are my reviews of code commits in this PR.\n\n------\n\n"@
}

/// The fixed instruction sent with each per-commit review request.
pub open spec fn review_prompt() -> Seq<char> {
    "Act as a review expert for GitHub Pull Requests. The next message is a GitHub patch for a single commit. Please review and provide feedback about the patch in the following format, filling the information and keeping the format intact:\n        # Code Review Request for Pull Request\n\n        **PR Number:** [insert PR number]\n        **PR Title:** [insert PR title]\n        **Code Version:** [insert code version]\n        **File Name(s):** [insert file name(s) of files changed in the PR]\n        **Code Overview:** [insert brief description of what the code changes do]\n        **Review Type:** [general review]\n        **Review Goals:** [identify bugs, improve readability, optimize performance]\n        **Additional Comments:** [alignment with the roadmap and objectives of the whole program]"@
}

/// The fixed instruction sent with the aggregate-summary request.
pub open spec fn summary_prompt() -> Seq<char> {
    "In the next messge, I will provide a set of reviews for code patches. Each review starts with a ------ line. Please write a summary of all the reviews"@
}

/// The boilerplate the report opens with.
pub fn preamble_text() -> (s: String)
    ensures
        s@ == preamble(),
{
    "Hello, I am a [serverless review bot](https://github.com/flows-network/github-pr-summary/) on [flows.network](https://flows.network/). Here are my reviews of code commits in this PR.\n\n------\n\n".to_owned()
}

/// The fixed instruction sent with each per-commit review request.
pub fn review_prompt_text() -> (s: String)
    ensures
        s@ == review_prompt(),
{
    "Act as a review expert for GitHub Pull Requests. The next message is a GitHub patch for a single commit. Please review and provide feedback about the patch in the following format, filling the information and keeping the format intact:\n        # Code Review Request for Pull Request\n\n        **PR Number:** [insert PR number]\n        **PR Title:** [insert PR title]\n        **Code Version:** [insert code version]\n        **File Name(s):** [insert file name(s) of files changed in the PR]\n        **Code Overview:** [insert brief description of what the code changes do]\n        **Review Type:** [general review]\n        **Review Goals:** [identify bugs, improve readability, optimize performance]\n        **Additional Comments:** [alignment with the roadmap and objectives of the whole program]".to_owned()
}

/// The fixed instruction sent with the aggregate-summary request.
pub fn summary_prompt_text() -> (s: String)
    ensures
        s@ == summary_prompt(),
{
    "In the next messge, I will provide a set of reviews for code patches. Each review starts with a ------ line. Please write a summary of all the reviews".to_owned()
}

/// One review as it stands in the log handed to the summary request: a
/// delimiter line, the review, a newline.
pub open spec fn review_block(r: Seq<char>) -> Seq<char> {
    "------\n"@ + r + "\n"@
}

/// The whole review log: every collected review in order, each in its
/// delimited block.
pub open spec fn review_log(rs: Seq<Seq<char>>) -> Seq<char>
    decreases rs.len(),
{
    if rs.len() == 0 {
        Seq::empty()
    } else {
        review_log(rs.drop_last()) + review_block(rs.last())
    }
}

/// A successful review is collected in order; a failed one is skipped.
pub fn collect_review(reviews: &mut Vec<String>, r: Option<String>)
    ensures
        match r {
            Some(t) => final(reviews)@ == old(reviews)@.push(t),
            None => final(reviews)@ == old(reviews)@,
        },
{
    if let Some(t) = r {
        reviews.push(t);
    }
}

/// The review log for the collected reviews, in order.
pub fn concat_reviews(reviews: &Vec<String>) -> (log: String)
    ensures
        log@ == review_log(reviews.deep_view()),
{
    let ghost all = reviews.deep_view();
    let mut log = String::new();
    let mut i: usize = 0;
    proof {
        assert(all.take(0) =~= Seq::<Seq<char>>::empty());
        assert(log@ =~= review_log(all.take(0)));
    }
    while i < reviews.len()
        invariant
            i <= reviews.len(),
            all == reviews.deep_view(),
            log@ == review_log(all.take(i as int)),
        decreases reviews.len() - i,
    {
        let ghost pre = log@;
        log.append("------\n");
        log.append(reviews[i].as_str());
        log.append("\n");
        proof {
            assert(all.take(i as int + 1).drop_last() =~= all.take(i as int));
            assert(log@ =~= pre + review_block(all[i as int]));
        }
        i = i + 1;
    }
    proof {
        assert(all.take(reviews.len() as int) =~= all);
    }
    log
}

/// An aggregate summary is requested only when more than one review came
/// back.
pub fn needs_summary(reviews: &Vec<String>) -> (b: bool)
    ensures
        b == (reviews@.len() > 1),
{
    reviews.len() > 1
}

/// One numbered per-commit section of the report.
pub open spec fn commit_section(r: Seq<char>, number: nat) -> Seq<char> {
    "### Commit "@ + dec_digits(number) + "\n"@ + r + "\n\n"@
}

/// The per-commit sections for all reviews, numbered from one in review
/// order.
pub open spec fn sections(rs: Seq<Seq<char>>) -> Seq<char>
    decreases rs.len(),
{
    if rs.len() == 0 {
        Seq::empty()
    } else {
        sections(rs.drop_last()) + commit_section(rs.last(), rs.len() as nat)
    }
}

/// The whole report: the preamble; then, if a summary came back, the
/// summary over a "## Details" heading; then the numbered sections.
pub open spec fn report(rs: Seq<Seq<char>>, summary: Option<Seq<char>>) -> Seq<char> {
    preamble() + (match summary {
        Some(s) => s + "\n\n## Details\n\n"@,
        None => Seq::empty(),
    }) + sections(rs)
}

/// Composes the report posted back on the pull request.
pub fn compose_report(reviews: &Vec<String>, summary: Option<String>) -> (r: String)
    ensures
        r@ == report(reviews.deep_view(), summary.deep_view()),
{
    let ghost all = reviews.deep_view();
    let mut r = preamble_text();
    if let Some(s) = summary {
        r.append(s.as_str());
        r.append("\n\n## Details\n\n");
    }
    let ghost head = r@;
    let mut i: usize = 0;
    proof {
        assert(all.take(0) =~= Seq::<Seq<char>>::empty());
        assert(r@ =~= head + sections(all.take(0)));
    }
    while i < reviews.len()
        invariant
            i <= reviews.len(),
            all == reviews.deep_view(),
            r@ == head + sections(all.take(i as int)),
        decreases reviews.len() - i,
    {
        let ghost pre = r@;
        r.append("### Commit ");
        let number: u64 = i as u64 + 1;
        push_decimal(&mut r, number);
        r.append("\n");
        r.append(reviews[i].as_str());
        r.append("\n\n");
        proof {
            assert(all.take(i as int + 1).drop_last() =~= all.take(i as int));
            assert(r@ =~= pre + commit_section(all[i as int], (i + 1) as nat));
        }
        i = i + 1;
    }
    proof {
        assert(all.take(reviews.len() as int) =~= all);
        assert(r@ =~= head + sections(all));
    }
    r
}

} // verus!
