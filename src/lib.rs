//! Turns a GitHub pull request and its review comments into one annotated
//! text document: the text, plus a labelled byte range for each piece.
//!
//! The document assembler is `prompt_utils`; `commands` makes its fragments
//! from the records that `github_api` reads out of REST responses.
//! `github_context` and `git` work out which pull request is meant.

pub mod commands;
pub mod config;
pub mod git;
pub mod github_api;
pub mod github_context;
pub mod json;
pub mod prompt_utils;
pub mod request;
pub mod status;
pub mod text;
