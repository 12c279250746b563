//! The once-initialized runtime registry, and the initialization entry
//! points that negotiate, load and store the process's language system.

use vstd::prelude::*;
use crate::bridge::{bundle_locales, bundle_messages, empty_message_map, host_locale, lid_model, parsed_tag_of};
use crate::errors::LanguageChoiceError;
use crate::listing::{DirListing, FileView, ResourceFile, SubdirView};
use crate::negotiate::{negotiate, negotiated_ranking, rejected_names};
use crate::system::{files_load_cleanly, files_of_name, loaded_messages, tags_of, LanguageSystem};
use crate::tag::{LanguageTag, TagView};

verus! {

/// The process-wide holder of the active language system. It starts empty,
/// accepts exactly one successful initialization, and refuses every later
/// one; the stored system is never replaced or torn down.
pub struct RuntimeRegistry {
    state: Option<LanguageSystem>,
}

impl RuntimeRegistry {
    /// Whether a system has been stored.
    pub closed spec fn is_initialized(&self) -> bool {
        self.state is Some
    }

    /// The stored system (meaningful only once initialized).
    pub closed spec fn active(&self) -> LanguageSystem {
        self.state.unwrap()
    }

    /// An empty registry.
    pub fn new() -> (r: RuntimeRegistry)
        ensures
            !r.is_initialized(),
    {
        RuntimeRegistry { state: None }
    }

    /// Store the language system. A second initialization attempt after a
    /// successful one fails and leaves the stored state untouched.
    pub fn initialize(&mut self, sys: LanguageSystem) -> (r: Result<(), LanguageChoiceError>)
        ensures
            old(self).is_initialized() ==> (r matches Err(
                LanguageChoiceError::AlreadyInitialized,
            ) && *final(self) == *old(self)),
            !old(self).is_initialized() ==> r is Ok && final(self).is_initialized()
                && final(self).active() == sys,
    {
        match &self.state {
            Some(_) => Err(LanguageChoiceError::AlreadyInitialized),
            None => {
                self.state = Some(sys);
                Ok(())
            },
        }
    }

    /// Borrow the stored system, if any.
    pub fn state_ref(&self) -> (r: Option<&LanguageSystem>)
        ensures
            r is Some <==> self.is_initialized(),
            r is Some ==> *r.unwrap() == self.active(),
    {
        match &self.state {
            Some(sys) => Some(sys),
            None => None,
        }
    }
}

/// Resolve what tag was asked for: parse the explicit request, or detect
/// and parse the host locale. Failure is fatal in both regimes.
pub fn resolve_desired(desired_lang: &Option<String>) -> (r: Result<
    (unic_langid::LanguageIdentifier, LanguageTag, String),
    LanguageChoiceError,
>)
    ensures
        desired_lang is Some ==> (r is Ok <==> parsed_tag_of(desired_lang.unwrap()@) is Some),
        desired_lang is Some && r is Ok ==> r->Ok_0.2@ == desired_lang.unwrap()@,
        desired_lang is Some && r is Err ==> (r->Err_0 matches
            LanguageChoiceError::MalformedLanguageTag(t) && t@ == desired_lang.unwrap()@),
        r is Ok ==> parsed_tag_of(r->Ok_0.2@) is Some && r->Ok_0.1@ == parsed_tag_of(
            r->Ok_0.2@,
        ).unwrap() && lid_model(r->Ok_0.0) == r->Ok_0.1@,
        desired_lang is None && r is Err ==> (r->Err_0 is LocaleUnavailable
            || r->Err_0 is MalformedLanguageTag),
        r is Err ==> (r->Err_0 is MalformedLanguageTag ==> parsed_tag_of(
            r->Err_0->MalformedLanguageTag_0@,
        ) is None),
{
    match desired_lang {
        Some(lang) => {
            match crate::bridge::parse_tag(lang.as_str()) {
                Some(pair) => Ok((pair.0, pair.1, lang.clone())),
                None => Err(LanguageChoiceError::MalformedLanguageTag(lang.clone())),
            }
        },
        None => {
            match host_locale() {
                None => Err(LanguageChoiceError::LocaleUnavailable),
                Some(loc) => {
                    match crate::bridge::parse_tag(loc.as_str()) {
                        Some(pair) => Ok((pair.0, pair.1, loc)),
                        None => Err(LanguageChoiceError::MalformedLanguageTag(loc)),
                    }
                },
            }
        },
    }
}

proof fn lemma_files_of_name_skip(subdirs: Seq<SubdirView>, name: Seq<char>, i: int)
    requires
        0 <= i <= subdirs.len(),
        forall|j: int| 0 <= j < i ==> subdirs[j].name != name,
    ensures
        files_of_name(subdirs, name) == files_of_name(subdirs.skip(i), name),
    decreases i,
{
    if i == 0 {
        assert(subdirs.skip(0) =~= subdirs);
    } else {
        assert(subdirs.first().name != name);
        let t = subdirs.drop_first();
        assert(forall|j: int| 0 <= j < i - 1 ==> t[j] == subdirs[j + 1]);
        lemma_files_of_name_skip(t, name, i - 1);
        assert(t.skip(i - 1) =~= subdirs.skip(i));
    }
}

fn clone_files(files: &Vec<ResourceFile>) -> (r: Vec<ResourceFile>)
    ensures
        r.deep_view() == files.deep_view(),
{
    let mut out: Vec<ResourceFile> = Vec::new();
    let n = files.len();
    let mut i: usize = 0;
    while i < n
        invariant
            i <= n,
            n == files@.len(),
            out.deep_view() =~= files.deep_view().take(i as int),
        decreases n - i,
    {
        let ghost before = out.deep_view();
        out.push(
            ResourceFile { name: files[i].name.clone(), contents: files[i].contents.clone() },
        );
        proof {
            assert(out.deep_view() =~= before.push(files.deep_view()[i as int]));
        }
        i = i + 1;
    }
    proof {
        assert(files.deep_view().take(n as int) =~= files.deep_view());
    }
    out
}

/// The files of the first subdirectory with the given name, copied out.
fn files_for(subdirs: &Vec<crate::listing::SubdirListing>, name: &String) -> (r: Vec<ResourceFile>)
    ensures
        r.deep_view() == files_of_name(subdirs.deep_view(), name@),
{
    let n = subdirs.len();
    let mut i: usize = 0;
    while i < n
        invariant
            i <= n,
            n == subdirs@.len(),
            forall|j: int| 0 <= j < i ==> subdirs.deep_view()[j].name != name@,
        decreases n - i,
    {
        if subdirs[i].name.eq(name) {
            let r = clone_files(&subdirs[i].files);
            proof {
                lemma_files_of_name_skip(subdirs.deep_view(), name@, i as int);
                let sk = subdirs.deep_view().skip(i as int);
                assert(sk.first() == subdirs.deep_view()[i as int]);
                assert(sk.first().name == name@);
                assert(files_of_name(sk, name@) == sk.first().files);
            }
            return r;
        }
        i = i + 1;
    }
    proof {
        lemma_files_of_name_skip(subdirs.deep_view(), name@, n as int);
        assert(subdirs.deep_view().skip(n as int) =~= Seq::<SubdirView>::empty());
    }
    Vec::new()
}

/// The inert, language-less state the degrade policy falls back to.
pub open spec fn degraded_system(sys: LanguageSystem) -> bool {
    &&& sys.current_lang@.language == "en"@
    &&& sys.current_lang@.script is None
    &&& sys.current_lang@.region is None
    &&& sys.current_lang@.variants.len() == 0
    &&& bundle_messages(sys.bundle) == empty_message_map()
    &&& bundle_locales(sys.bundle).len() == 0
    &&& sys.current_lang_dir_path@.len() == 0
}

/// What a successfully initialized system looks like for a desired tag and
/// a subdirectory snapshot: the inert state when nothing matched, else the
/// top-ranked candidate's language and directory, the full ranking as the
/// bundle's fallback chain, and the top candidate's resource files loaded.
pub open spec fn initialized_for(sys: LanguageSystem, dt: TagView, subdirs: Seq<SubdirView>) -> bool {
    let ranking = negotiated_ranking(dt, subdirs);
    if ranking.len() == 0 {
        degraded_system(sys)
    } else {
        &&& sys.current_lang@ == ranking[0].tag
        &&& sys.current_lang_dir_path@ == ranking[0].dir_path
        &&& bundle_locales(sys.bundle) == tags_of(ranking)
        &&& loaded_messages(files_of_name(subdirs, ranking[0].lang_name)) is Some
        &&& bundle_messages(sys.bundle) == loaded_messages(
            files_of_name(subdirs, ranking[0].lang_name),
        ).unwrap()
    }
}

/// One-time initialization with an explicit failure policy: resolve the
/// desired tag, rank the snapshot's subdirectories, load the top
/// candidate's resource files, and store the resulting system.
pub fn init_lang_with_donnot_panic(
    reg: &mut RuntimeRegistry,
    desired_lang: Option<String>,
    listing: &DirListing,
    donnot_panic: bool,
) -> (r: Result<(), LanguageChoiceError>)
    ensures
        old(reg).is_initialized() ==> r is Err && *final(reg) == *old(reg),
        r is Err ==> *final(reg) == *old(reg),
        r is Ok ==> final(reg).is_initialized() && final(reg).active().donnot_panic
            == donnot_panic,
        !old(reg).is_initialized() && !listing.found ==> (if donnot_panic {
            r is Ok && degraded_system(final(reg).active())
        } else {
            r matches Err(LanguageChoiceError::NoLanguageFilesAt(p)) && p@
                == listing.shown_path@
        }),
        !old(reg).is_initialized() && listing.found && desired_lang is Some ==> (
        if parsed_tag_of(desired_lang.unwrap()@) is None {
            r matches Err(LanguageChoiceError::MalformedLanguageTag(t)) && t@
                == desired_lang.unwrap()@
        } else {
            let dt = parsed_tag_of(desired_lang.unwrap()@).unwrap();
            let ranking = negotiated_ranking(dt, listing.subdirs.deep_view());
            &&& (r is Ok ==> initialized_for(
                final(reg).active(),
                dt,
                listing.subdirs.deep_view(),
            ))
            &&& (ranking.len() == 0 ==> (if donnot_panic {
                r is Ok
            } else {
                r matches Err(LanguageChoiceError::LanguageNegotiatedFailed(d, names)) && d@
                    == desired_lang.unwrap()@ && names.deep_view() == rejected_names(
                    dt,
                    listing.subdirs.deep_view(),
                )
            }))
            &&& (ranking.len() > 0 && files_load_cleanly(
                files_of_name(listing.subdirs.deep_view(), ranking[0].lang_name),
            ) ==> r is Ok)
            &&& (ranking.len() > 0 && r is Err ==> (r->Err_0 is ResourceParseFailed
                || r->Err_0 is ResourceAddFailed))
        }),
        !old(reg).is_initialized() && listing.found && desired_lang is None && r is Ok
            ==> exists|loc: Seq<char>|
            parsed_tag_of(loc) is Some && initialized_for(
                final(reg).active(),
                parsed_tag_of(loc).unwrap(),
                listing.subdirs.deep_view(),
            ),
{
    if !listing.found {
        if !donnot_panic {
            return Err(LanguageChoiceError::NoLanguageFilesAt(listing.shown_path.clone()));
        }
        let sys = match LanguageSystem::new(Vec::new(), Vec::new(), donnot_panic) {
            Ok(sys) => sys,
            Err(e) => {
                return Err(e);
            },
        };
        return reg.initialize(sys);
    }
    let resolved = match resolve_desired(&desired_lang) {
        Ok(resolved) => resolved,
        Err(e) => {
            return Err(e);
        },
    };
    let (_dlid, dtag, dname) = resolved;
    let ranked = match negotiate(&dtag, &dname, listing, donnot_panic) {
        Ok(ranked) => ranked,
        Err(e) => {
            return Err(e);
        },
    };
    let files = if ranked.len() > 0 {
        files_for(&listing.subdirs, &ranked[0].lang_name)
    } else {
        Vec::new()
    };
    let ghost rankedv = ranked.deep_view();
    let sys = match LanguageSystem::new(ranked, files, donnot_panic) {
        Ok(sys) => sys,
        Err(e) => {
            return Err(e);
        },
    };
    reg.initialize(sys)
}

/// One-time initialization under the degrade policy: missing directories
/// and missing translations degrade; defects stay fatal.
pub fn init_lang(reg: &mut RuntimeRegistry, desired_lang: Option<String>, listing: &DirListing) -> (r:
    Result<(), LanguageChoiceError>)
    ensures
        old(reg).is_initialized() ==> r is Err && *final(reg) == *old(reg),
        r is Err ==> *final(reg) == *old(reg),
        r is Ok ==> final(reg).is_initialized() && final(reg).active().donnot_panic,
        !old(reg).is_initialized() && !listing.found ==> r is Ok && degraded_system(
            final(reg).active(),
        ),
        !old(reg).is_initialized() && listing.found && desired_lang is Some ==> (
        if parsed_tag_of(desired_lang.unwrap()@) is None {
            r matches Err(LanguageChoiceError::MalformedLanguageTag(t)) && t@
                == desired_lang.unwrap()@
        } else {
            let dt = parsed_tag_of(desired_lang.unwrap()@).unwrap();
            let ranking = negotiated_ranking(dt, listing.subdirs.deep_view());
            &&& (r is Ok ==> initialized_for(
                final(reg).active(),
                dt,
                listing.subdirs.deep_view(),
            ))
            &&& (ranking.len() == 0 ==> r is Ok)
            &&& (ranking.len() > 0 && files_load_cleanly(
                files_of_name(listing.subdirs.deep_view(), ranking[0].lang_name),
            ) ==> r is Ok)
            &&& (ranking.len() > 0 && r is Err ==> (r->Err_0 is ResourceParseFailed
                || r->Err_0 is ResourceAddFailed))
        }),
        !old(reg).is_initialized() && listing.found && desired_lang is None && r is Ok
            ==> exists|loc: Seq<char>|
            parsed_tag_of(loc) is Some && initialized_for(
                final(reg).active(),
                parsed_tag_of(loc).unwrap(),
                listing.subdirs.deep_view(),
            ),
{
    init_lang_with_donnot_panic(reg, desired_lang, listing, true)
}

} // verus!
