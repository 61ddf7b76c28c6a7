use github_pr_summary::pipeline::TOKEN_CEILING;
use github_pr_summary::splitter::{line_is_boundary, split_patch};
use github_pr_summary::tokenizer::Tokenizer;

fn tok() -> Tokenizer {
    Tokenizer::new().expect("the cl100k_base encoding loads")
}

#[test]
fn empty_patch_yields_no_chunks() {
    let chunks = split_patch(&tok(), "", TOKEN_CEILING);
    assert_eq!(chunks.len(), 0);
}

#[test]
fn no_boundary_yields_single_chunk() {
    let chunks = split_patch(&tok(), "hello\nworld", TOKEN_CEILING);
    assert_eq!(chunks, vec!["hello\nworld\n".to_string()]);
}

#[test]
fn boundary_only_at_line_start() {
    let chunks = split_patch(&tok(), "xFrom a\ny", TOKEN_CEILING);
    assert_eq!(chunks, vec!["xFrom a\ny\n".to_string()]);
}

#[test]
fn two_boundaries_yield_two_chunks() {
    let chunks = split_patch(&tok(), "From a\nx\nFrom b\ny\n", TOKEN_CEILING);
    assert_eq!(
        chunks,
        vec!["From a\nx\n".to_string(), "From b\ny\n".to_string()]
    );
}

#[test]
fn content_before_first_boundary_is_its_own_chunk() {
    let chunks = split_patch(&tok(), "intro\nFrom a\nx\n", TOKEN_CEILING);
    assert_eq!(
        chunks,
        vec!["intro\n".to_string(), "From a\nx\n".to_string()]
    );
}

#[test]
fn carriage_returns_are_stripped_from_line_ends() {
    let chunks = split_patch(&tok(), "a\r\nFrom b\r\nc", TOKEN_CEILING);
    assert_eq!(chunks, vec!["a\n".to_string(), "From b\nc\n".to_string()]);
}

#[test]
fn splitting_twice_gives_identical_chunks() {
    let t = tok();
    let patch = "From a\nline one\nline two\nFrom b\nline three\n";
    let first = split_patch(&t, patch, TOKEN_CEILING);
    let second = split_patch(&t, patch, TOKEN_CEILING);
    assert_eq!(first, second);
}

#[test]
fn lines_past_the_ceiling_are_dropped() {
    // With a ceiling of one token, only the line appended to an empty chunk
    // is accepted; everything after it measures at or over the ceiling.
    let chunks = split_patch(&tok(), "aaa\nbbb\nccc", 1);
    assert_eq!(chunks, vec!["aaa\n".to_string()]);
}

#[test]
fn ceiling_zero_accepts_nothing() {
    let chunks = split_patch(&tok(), "aaa\nbbb", 0);
    assert_eq!(chunks.len(), 0);
}

#[test]
fn token_counts_are_measured() {
    let t = tok();
    assert_eq!(t.count_tokens(""), 0);
    let n = t.count_tokens("hello world, this is a patch");
    assert!(n > 0);
    assert!(n <= "hello world, this is a patch".len());
}

#[test]
fn boundary_detection_requires_the_marker_prefix() {
    assert!(line_is_boundary("From abc123"));
    assert!(line_is_boundary("From "));
    assert!(!line_is_boundary("From"));
    assert!(!line_is_boundary(" From x"));
    assert!(!line_is_boundary(""));
}
