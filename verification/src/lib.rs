//! A verified core for a pull-request review bot: it splits a multi-commit
//! patch into token-bounded chunks, drives one model review per chunk, and
//! composes the results into a single report to post back on the pull
//! request.

pub mod config;
pub mod decimal;
pub mod lines;
pub mod pipeline;
pub mod report;
pub mod splitter;
pub mod tokenizer;
