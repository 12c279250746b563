//! The resource loader and the per-process language system: the bundle for
//! the chosen language, built over the ranked candidates' fallback chain.

use vstd::prelude::*;
use crate::bridge::{
    bundle_add_resource, bundle_ids, bundle_locales, bundle_messages, bundle_new, empty_id_set,
    empty_message_map, ftl_source_ids, ftl_source_messages, lid_clone, lid_model, resource_try_new,
};
use crate::errors::LanguageChoiceError;
use crate::listing::{FileView, ResourceFile, SubdirView};
use crate::negotiate::{Candidate, CandidateView};
use crate::tag::{LanguageTag, TagView};

verus! {

/// Whether a file name carries the recognized resource extension: a final
/// `.ftl`, with the dot not in first position (a bare `.ftl` is a hidden
/// file, not a resource).
pub open spec fn is_resource_name(name: Seq<char>) -> bool {
    name.len() >= 5 && name.subrange(name.len() - 4, name.len() as int) == seq![
        '.',
        'f',
        't',
        'l',
    ]
}

/// Executable check realizing `is_resource_name`.
pub fn is_resource_file_name(name: &str) -> (r: bool)
    ensures
        r == is_resource_name(name@),
{
    let n = name.unicode_len();
    if n < 5 {
        return false;
    }
    let c0 = name.get_char(n - 4);
    let c1 = name.get_char(n - 3);
    let c2 = name.get_char(n - 2);
    let c3 = name.get_char(n - 1);
    let r = c0 == '.' && c1 == 'f' && c2 == 't' && c3 == 'l';
    proof {
        let tail = name@.subrange(name@.len() - 4, name@.len() as int);
        assert(tail.len() == 4);
        assert(tail[0] == name@[name@.len() - 4]);
        assert(tail[1] == name@[name@.len() - 3]);
        assert(tail[2] == name@[name@.len() - 2]);
        assert(tail[3] == name@[name@.len() - 1]);
        if r {
            assert(tail =~= seq!['.', 'f', 't', 'l']);
        }
    }
    r
}

/// The message set a file list loads to: resource files are parsed and
/// their messages accumulated left to right (other files are skipped);
/// nothing, when some resource file's text is not well-formed.
pub open spec fn loaded_messages(files: Seq<FileView>) -> Option<Map<Seq<char>, bool>>
    decreases files.len(),
{
    if files.len() == 0 {
        Some(empty_message_map())
    } else {
        match loaded_messages(files.drop_last()) {
            None => None,
            Some(m) => {
                if !is_resource_name(files.last().name) {
                    Some(m)
                } else {
                    match ftl_source_messages(files.last().contents) {
                        None => None,
                        Some(fm) => Some(m.union_prefer_right(fm)),
                    }
                }
            },
        }
    }
}

/// The entry ids a file list claims while loading: every id defined by a
/// resource-named file's text.
pub open spec fn loaded_ids(files: Seq<FileView>) -> Set<Seq<char>>
    decreases files.len(),
{
    if files.len() == 0 {
        empty_id_set()
    } else {
        let rest = loaded_ids(files.drop_last());
        if !is_resource_name(files.last().name) {
            rest
        } else {
            rest.union(ftl_source_ids(files.last().contents).to_set())
        }
    }
}

/// Whether a file list loads without a defect: every resource-named file's
/// text is well-formed, defines no id twice, and defines no id an earlier
/// resource file already claimed. On such a list loading is owed success.
pub open spec fn files_load_cleanly(files: Seq<FileView>) -> bool
    decreases files.len(),
{
    if files.len() == 0 {
        true
    } else {
        &&& files_load_cleanly(files.drop_last())
        &&& (is_resource_name(files.last().name) ==> {
            &&& ftl_source_messages(files.last().contents) is Some
            &&& ftl_source_ids(files.last().contents).no_duplicates()
            &&& loaded_ids(files.drop_last()).disjoint(
                ftl_source_ids(files.last().contents).to_set(),
            )
        })
    }
}

/// A clean file list stays clean when cut short.
proof fn lemma_clean_prefix(files: Seq<FileView>, k: int)
    requires
        files_load_cleanly(files),
        0 <= k <= files.len(),
    ensures
        files_load_cleanly(files.take(k)),
    decreases files.len() - k,
{
    if k == files.len() {
        assert(files.take(k) =~= files);
    } else {
        lemma_clean_prefix(files, k + 1);
        assert(files.take(k + 1).drop_last() =~= files.take(k));
    }
}

/// The files of the first subdirectory carrying the given name (none, when
/// no subdirectory does).
pub open spec fn files_of_name(subdirs: Seq<SubdirView>, name: Seq<char>) -> Seq<FileView>
    decreases subdirs.len(),
{
    if subdirs.len() == 0 {
        Seq::empty()
    } else if subdirs.first().name == name {
        subdirs.first().files
    } else {
        files_of_name(subdirs.drop_first(), name)
    }
}

/// The tags of a candidate list, in order.
pub open spec fn tags_of(cands: Seq<CandidateView>) -> Seq<TagView> {
    cands.map_values(|c: CandidateView| c.tag)
}

/// The language system serving one process: the loaded bundle, the active
/// language, the directory it came from, and the failure policy.
pub struct LanguageSystem {
    pub bundle: fluent::concurrent::FluentBundle<fluent::FluentResource>,
    pub current_lang: LanguageTag,
    pub current_lang_dir_path: String,
    pub donnot_panic: bool,
}

impl LanguageSystem {
    /// Build the system for a negotiated ranking: the bundle carries every
    /// ranked tag as its fallback chain, while only the given files — the
    /// top candidate's — are loaded. An empty ranking yields the inert
    /// state (language `en`, nothing loaded) under the degrade policy and
    /// an error otherwise.
    pub fn new(candidates: Vec<Candidate>, files: Vec<ResourceFile>, donnot_panic: bool) -> (r:
        Result<LanguageSystem, LanguageChoiceError>)
        requires
            forall|i: int| 0 <= i < candidates@.len() ==> (#[trigger] candidates@[i]).lid_ok(),
        ensures
            candidates@.len() == 0 ==> (if donnot_panic {
                r is Ok
            } else {
                r matches Err(LanguageChoiceError::NoUsableLanguage)
            }),
            candidates@.len() == 0 && r is Ok ==> r->Ok_0.current_lang@.language == "en"@
                && r->Ok_0.current_lang@.script is None && r->Ok_0.current_lang@.region is None
                && r->Ok_0.current_lang@.variants.len() == 0 && bundle_messages(r->Ok_0.bundle)
                == empty_message_map() && bundle_locales(r->Ok_0.bundle).len() == 0
                && r->Ok_0.current_lang_dir_path@.len() == 0,
            candidates@.len() > 0 && r is Ok ==> r->Ok_0.current_lang@
                == candidates.deep_view()[0].tag && r->Ok_0.current_lang_dir_path@
                == candidates.deep_view()[0].dir_path && bundle_locales(r->Ok_0.bundle) == tags_of(
                candidates.deep_view(),
            ) && loaded_messages(files.deep_view()) is Some && bundle_messages(r->Ok_0.bundle)
                == loaded_messages(files.deep_view()).unwrap(),
            candidates@.len() > 0 && files_load_cleanly(files.deep_view()) ==> r is Ok,
            candidates@.len() > 0 && r is Err ==> (r->Err_0 is ResourceParseFailed
                || r->Err_0 is ResourceAddFailed),
            r is Ok ==> r->Ok_0.donnot_panic == donnot_panic,
    {
        let mut lids: Vec<unic_langid::LanguageIdentifier> = Vec::new();
        let n = candidates.len();
        let mut i: usize = 0;
        while i < n
            invariant
                i <= n,
                n == candidates@.len(),
                forall|k: int| 0 <= k < candidates@.len() ==> (#[trigger] candidates@[k]).lid_ok(),
                lids@.len() == i,
                lids@.map_values(|l: unic_langid::LanguageIdentifier| lid_model(l)) =~= tags_of(
                    candidates.deep_view(),
                ).take(i as int),
            decreases n - i,
        {
            let ghost before = lids@;
            lids.push(lid_clone(&candidates[i].lid));
            proof {
                let f = |l: unic_langid::LanguageIdentifier| lid_model(l);
                assert(lids@.map_values(f) =~= before.map_values(f).push(
                    lid_model(candidates@[i as int].lid),
                ));
                assert(lids@.map_values(f) =~= tags_of(candidates.deep_view()).take(i + 1));
            }
            i = i + 1;
        }
        proof {
            assert(tags_of(candidates.deep_view()).take(n as int) =~= tags_of(
                candidates.deep_view(),
            ));
        }
        let mut bundle = bundle_new(lids);
        if candidates.len() == 0 {
            if !donnot_panic {
                return Err(LanguageChoiceError::NoUsableLanguage);
            }
            let fallback = LanguageTag {
                language: String::from_str("en"),
                script: None,
                region: None,
                variants: Vec::new(),
            };
            return Ok(
                LanguageSystem {
                    bundle,
                    current_lang: fallback,
                    current_lang_dir_path: String::new(),
                    donnot_panic,
                },
            );
        }
        let ghost fv = files.deep_view();
        let m = files.len();
        let mut j: usize = 0;
        proof {
            assert(fv.take(0) =~= Seq::<FileView>::empty());
        }
        while j < m
            invariant
                candidates@.len() > 0,
                j <= m,
                m == files@.len(),
                fv == files.deep_view(),
                loaded_messages(fv.take(j as int)) is Some,
                bundle_messages(bundle) == loaded_messages(fv.take(j as int)).unwrap(),
                bundle_ids(bundle) == loaded_ids(fv.take(j as int)),
                bundle_locales(bundle) == tags_of(candidates.deep_view()),
            decreases m - j,
        {
            let f = &files[j];
            proof {
                assert(fv[j as int] == files@[j as int]@);
                assert(fv.take(j + 1).drop_last() =~= fv.take(j as int));
                assert(fv.take(j + 1).last() == fv[j as int]);
            }
            if is_resource_file_name(f.name.as_str()) {
                let res = match resource_try_new(f.contents.clone()) {
                    Ok(res) => res,
                    Err(_) => {
                        proof {
                            if files_load_cleanly(fv) {
                                lemma_clean_prefix(fv, j + 1);
                            }
                        }
                        return Err(LanguageChoiceError::ResourceParseFailed(f.name.clone()));
                    },
                };
                match bundle_add_resource(&mut bundle, res) {
                    Ok(_) => {},
                    Err(_) => {
                        proof {
                            if files_load_cleanly(fv) {
                                lemma_clean_prefix(fv, j + 1);
                            }
                        }
                        return Err(LanguageChoiceError::ResourceAddFailed(f.name.clone()));
                    },
                }
            }
            j = j + 1;
        }
        proof {
            assert(fv.take(m as int) =~= fv);
        }
        let mut candidates = candidates;
        let first = candidates.remove(0);
        Ok(
            LanguageSystem {
                bundle,
                current_lang: first.tag,
                current_lang_dir_path: first.dir_path,
                donnot_panic,
            },
        )
    }
}

} // verus!
