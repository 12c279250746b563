//! The library-wide guarantees, stated and proved over the same spec
//! functions the public contracts use.

use vstd::prelude::*;
use crate::args::ArgView;
use crate::bridge::{bundle_messages, empty_message_map};
use crate::negotiate::{cand_le, cands_sorted, lemma_sort_cands_sorted, negotiated_ranking, scored_candidates};
use crate::registry::RuntimeRegistry;
use crate::resolve::{
    lookup_view, replacement_view, resolve_view, result_view, shown_subject, ResolveError,
    ResolveFailView,
};
use crate::system::LanguageSystem;
use crate::listing::SubdirView;
use crate::tag::TagView;

verus! {

/// Tie-break determinism: every negotiated ranking is ordered, so two
/// directories scoring equally stand in ascending name order, reproducibly
/// across runs — the ranking is a function of the desired tag and the
/// subdirectory snapshot alone.
pub proof fn lemma_ranking_tie_break(desired: TagView, subdirs: Seq<SubdirView>)
    ensures
        cands_sorted(negotiated_ranking(desired, subdirs)),
        forall|i: int, j: int|
            0 <= i < j < negotiated_ranking(desired, subdirs).len() ==> cand_le(
                negotiated_ranking(desired, subdirs)[i],
                negotiated_ranking(desired, subdirs)[j],
            ),
{
    lemma_sort_cands_sorted(scored_candidates(desired, subdirs));
}

/// A candidate sets some bit of its score exactly when its language code
/// equals the desired tag's: the language-only check is the weakest of the
/// four, so keeping any positively scored candidate keeps exactly the ones
/// whose language matches.
pub proof fn lemma_kept_iff_language_matches(a: TagView, b: TagView)
    ensures
        crate::tag::spec_score(a, b) >= 1 <==> a.language == b.language,
{
}

/// Idempotence: two resolutions of the same key with the same arguments
/// against the same registry state yield identical output — the resolution
/// result is a function of its inputs, with no hidden formatting state.
pub proof fn lemma_resolution_idempotent(
    reg: RuntimeRegistry,
    key: Seq<char>,
    names: Option<Seq<Seq<char>>>,
    argm: Option<Map<Seq<char>, ArgView>>,
    r1: Result<String, ResolveError>,
    r2: Result<String, ResolveError>,
)
    requires
        result_view(r1) == resolve_view(reg, key, names, argm),
        result_view(r2) == resolve_view(reg, key, names, argm),
    ensures
        result_view(r1) == result_view(r2),
{
}

/// An empty bundle misses on every key: each lookup in it degrades or
/// fails exactly as a missing key does, whatever the key and arguments.
pub proof fn lemma_empty_bundle_every_lookup_misses(
    sys: LanguageSystem,
    key: Seq<char>,
    names: Option<Seq<Seq<char>>>,
    argm: Option<Map<Seq<char>, ArgView>>,
)
    requires
        bundle_messages(sys.bundle) == empty_message_map(),
    ensures
        sys.donnot_panic ==> lookup_view(sys, key, names, argm) == Ok::<
            Seq<char>,
            ResolveFailView,
        >(replacement_view("NoSuchMessage"@, shown_subject(key, names))),
        !sys.donnot_panic ==> lookup_view(sys, key, names, argm) == Err::<
            Seq<char>,
            ResolveFailView,
        >(ResolveFailView::NoSuchMessage(key)),
{
    assert(!bundle_messages(sys.bundle).contains_key(key));
}

} // verus!
