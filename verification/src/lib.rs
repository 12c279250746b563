//! Language negotiation and message resolution for fluent resource
//! directories.
//!
//! Given a desired language tag (or the host locale) and a snapshot of a
//! resource directory's subdirectories, the library ranks the candidate
//! languages, loads the best candidate's resource files into a bundle, and
//! serves looked-up, argument-substituted messages with a selectable failure
//! policy: abort (errors are returned for the caller to escalate) or degrade
//! (missing messages yield visible placeholder strings).

mod args;
mod bridge;
mod errors;
mod laws;
mod listing;
mod negotiate;
mod registry;
mod resolve;
mod strorder;
mod system;
mod tag;

pub use args::ArgValue;
pub use args::ArgView;
pub use errors::LanguageChoiceError;
pub use laws::lemma_empty_bundle_every_lookup_misses;
pub use laws::lemma_kept_iff_language_matches;
pub use laws::lemma_ranking_tie_break;
pub use laws::lemma_resolution_idempotent;
pub use listing::DirListing;
pub use listing::FileView;
pub use listing::ResourceFile;
pub use listing::SubdirListing;
pub use listing::SubdirView;
pub use negotiate::Candidate;
pub use negotiate::CandidateView;
pub use negotiate::negotiate;
pub use negotiate::negotiated_ranking;
pub use negotiate::scored_candidates;
pub use negotiate::rejected_names;
pub use negotiate::cand_le;
pub use negotiate::cands_sorted;
pub use negotiate::sort_cands;
pub use negotiate::lemma_sort_cands_sorted;
pub use registry::RuntimeRegistry;
pub use registry::degraded_system;
pub use registry::init_lang;
pub use registry::init_lang_with_donnot_panic;
pub use registry::initialized_for;
pub use registry::resolve_desired;
pub use system::LanguageSystem;
pub use system::files_of_name;
pub use system::is_resource_file_name;
pub use system::is_resource_name;
pub use system::loaded_messages;
pub use system::tags_of;
pub use resolve::ResolveError;
pub use resolve::ResolveFailView;
pub use resolve::args_map_of;
pub use resolve::args_names;
pub use resolve::build_language;
pub use resolve::build_language_0;
pub use resolve::build_language_1;
pub use resolve::build_language_2;
pub use resolve::build_language_3;
pub use resolve::build_language_fns;
pub use resolve::concat_parameters_key;
pub use resolve::joined_names;
pub use resolve::lookup_view;
pub use resolve::make_error_replacement;
pub use resolve::one_arg_map;
pub use resolve::two_arg_map;
pub use resolve::three_arg_map;
pub use resolve::params_key_view;
pub use resolve::replacement_view;
pub use resolve::resolve_view;
pub use resolve::result_view;
pub use resolve::shown_subject;
pub use resolve::sort_names;
pub use tag::LanguageTag;
pub use tag::TagView;
pub use tag::language_matches_score;
pub use tag::spec_score;
pub use tag::tag_matches;
