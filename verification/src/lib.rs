//! Turn a path inside a git working tree into a permanent, commit-pinned web
//! URL on the hosting forge, optionally anchored to a line range found either
//! by explicit line numbers or by a multi-line text search.
//!
//! The centerpiece is the sequential subsequence matcher of [`search_lines`]:
//! a one-pass, greedy, order-preserving scan that maps a pasted block of text
//! onto concrete line numbers of the target file.

mod errors;
mod git;
mod link;
mod pipeline;
mod query;
mod search;
mod text;

pub use errors::spec_message;
pub use errors::text_not_found_message;
pub use errors::LinkError;
pub use git::ends_with;
pub use git::decode_path;
pub use git::gix_repo_url;
pub use git::identity_of;
pub use git::spec_repo_path;
pub use git::spec_strip_git;
pub use git::spec_strip_slash;
pub use git::spec_strip_trailing_slash;
pub use git::strip_git_suffix;
pub use git::strip_leading_slash;
pub use git::strip_trailing_slash;
pub use git::RemoteIdentity;
pub use link::base_url;
pub use link::fragment;
pub use link::join_paths;
pub use link::spec_base_url;
pub use link::spec_dec;
pub use link::spec_fragment;
pub use link::spec_join;
pub use link::usize_to_string;
pub use pipeline::blob_url;
pub use pipeline::lemma_resolve_idempotent;
pub use pipeline::resolve_link;
pub use pipeline::spec_resolve;
pub use query::make_link_options;
pub use query::LinkOptions;
pub use query::UrlGenerationArgs;
pub use search::lemma_first_last_extremal;
pub use search::lemma_matched_aligned;
pub use search::lemma_round_trip;
pub use search::lemma_round_trip_text;
pub use search::lemma_whole_file;
pub use search::locate_range;
pub use search::match_lines;
pub use search::matched_from;
pub use search::range_of_matches;
pub use search::search_lines;
pub use search::spec_matched;
pub use search::LineRangeResult;
pub use text::chop_cr;
pub use text::lemma_lines_no_break;
pub use text::lemma_lines_unlines;
pub use text::no_line_break;
pub use text::spec_contains;
pub use text::spec_lines;
pub use text::spec_unlines;
pub use text::split_lines;
pub use text::str_contains;
