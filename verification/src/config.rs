//! The configuration the pipeline runs under, and the screening of a
//! delivered event: only an open pull-request event with a known author is
//! reviewed.

use vstd::prelude::*;

verus! {

/// What a setting resolves to: its value where one was supplied, its fixed
/// default otherwise.
pub open spec fn or_default(v: Option<String>, d: Seq<char>) -> Seq<char> {
    match v {
        Some(s) => s@,
        None => d,
    }
}

/// The settings the pipeline runs under, resolved once at start.
pub struct Config {
    pub login: String,
    pub owner: String,
    pub repo: String,
    pub openai_key_name: String,
}

impl Config {
    /// Resolves each setting, falling back to its fixed default when it was
    /// not supplied.
    pub fn resolve(
        login: Option<String>,
        owner: Option<String>,
        repo: Option<String>,
        openai_key_name: Option<String>,
    ) -> (c: Config)
        ensures
            c.login@ == or_default(login, "jaykchen"@),
            c.owner@ == or_default(owner, "jaykchen"@),
            c.repo@ == or_default(repo, "a-test"@),
            c.openai_key_name@ == or_default(openai_key_name, "jaykchen"@),
    {
        Config {
            login: match login {
                Some(s) => s,
                None => "jaykchen".to_owned(),
            },
            owner: match owner {
                Some(s) => s,
                None => "jaykchen".to_owned(),
            },
            repo: match repo {
                Some(s) => s,
                None => "a-test".to_owned(),
            },
            openai_key_name: match openai_key_name {
                Some(s) => s,
                None => "jaykchen".to_owned(),
            },
        }
    }
}

/// What happened to the pull request that the event reports.
#[derive(PartialEq, Eq, Structural, Clone, Copy)]
pub enum PullAction {
    Opened,
    Updated,
    Closed,
    Other,
}

/// The pull-request event as the core reads it: the action, the number, and
/// the optional title and author taken from the payload.
pub struct PullEvent {
    pub action: PullAction,
    pub number: u64,
    pub title: Option<String>,
    pub author: Option<String>,
}

/// The number of the pull request to review, if the event asks for a
/// review: the payload must be a pull-request event, not for a closed pull
/// request, and must name its author.
pub open spec fn screened(ev: Option<PullEvent>) -> Option<u64> {
    match ev {
        Some(e) => if e.action is Closed || e.author is None {
            None
        } else {
            Some(e.number)
        },
        None => None,
    }
}

/// Decides whether the delivered event is reviewed, and for which pull
/// request. A closed pull request, a payload that is no pull-request event,
/// or one without an author is ignored.
pub fn screen_event(ev: &Option<PullEvent>) -> (r: Option<u64>)
    ensures
        r == screened(*ev),
{
    match ev {
        Some(e) => {
            if e.action == PullAction::Closed {
                None
            } else {
                match &e.author {
                    Some(_) => Some(e.number),
                    None => None,
                }
            }
        },
        None => None,
    }
}

} // verus!
