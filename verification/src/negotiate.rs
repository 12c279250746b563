//! The negotiator: scores every language subdirectory against the desired
//! tag, keeps the ones whose language code matches, and ranks them by score
//! (descending) and directory name (ascending).

use vstd::prelude::*;
use crate::bridge::{parse_tag, parsed_tag_of, lid_model};
use crate::errors::LanguageChoiceError;
use crate::listing::{DirListing, SubdirView};
use crate::strorder::{lex_le, str_le, lemma_lex_connected, lemma_lex_le_trans};
use crate::tag::{LanguageTag, TagView, language_matches_score, spec_score};

verus! {

/// Model of one ranked candidate.
pub ghost struct CandidateView {
    pub tag: TagView,
    pub lang_name: Seq<char>,
    pub dir_path: Seq<char>,
    pub score: u8,
}

/// One candidate language: its parsed tag (in both the outside crate's form
/// and the library's), the subdirectory name it came from, the
/// subdirectory's path, and its score against the desired tag.
#[derive(Debug)]
pub struct Candidate {
    pub lid: unic_langid::LanguageIdentifier,
    pub tag: LanguageTag,
    pub lang_name: String,
    pub dir_path: String,
    pub score: u8,
}

impl View for Candidate {
    type V = CandidateView;

    open spec fn view(&self) -> CandidateView {
        CandidateView {
            tag: self.tag@,
            lang_name: self.lang_name@,
            dir_path: self.dir_path@,
            score: self.score,
        }
    }
}

impl DeepView for Candidate {
    type V = CandidateView;

    open spec fn deep_view(&self) -> CandidateView {
        self.view()
    }
}

impl Candidate {
    /// The opaque identifier stands for the same tag as the parsed fields.
    pub open spec fn lid_ok(&self) -> bool {
        lid_model(self.lid) == self.tag@
    }
}

/// Whether a subdirectory is kept as a candidate: its name parses as a tag
/// and at least one of the four match checks against the desired tag holds.
pub open spec fn subdir_kept(desired: TagView, s: SubdirView) -> bool {
    parsed_tag_of(s.name) is Some && spec_score(parsed_tag_of(s.name).unwrap(), desired) >= 1
}

/// Whether a subdirectory is a valid language directory that matches on no
/// axis at all (reported in diagnostics, never ranked).
pub open spec fn subdir_rejected(desired: TagView, s: SubdirView) -> bool {
    parsed_tag_of(s.name) is Some && spec_score(parsed_tag_of(s.name).unwrap(), desired) < 1
}

/// The candidate a kept subdirectory turns into.
pub open spec fn candidate_of(desired: TagView, s: SubdirView) -> CandidateView {
    CandidateView {
        tag: parsed_tag_of(s.name).unwrap(),
        lang_name: s.name,
        dir_path: s.path,
        score: spec_score(parsed_tag_of(s.name).unwrap(), desired) as u8,
    }
}

/// The kept candidates of a subdirectory list, in directory order.
pub open spec fn scored_candidates(desired: TagView, subdirs: Seq<SubdirView>) -> Seq<
    CandidateView,
>
    decreases subdirs.len(),
{
    if subdirs.len() == 0 {
        Seq::empty()
    } else {
        let prefix = scored_candidates(desired, subdirs.drop_last());
        if subdir_kept(desired, subdirs.last()) {
            prefix.push(candidate_of(desired, subdirs.last()))
        } else {
            prefix
        }
    }
}

/// The names of the valid-but-non-matching subdirectories, in directory
/// order.
pub open spec fn rejected_names(desired: TagView, subdirs: Seq<SubdirView>) -> Seq<Seq<char>>
    decreases subdirs.len(),
{
    if subdirs.len() == 0 {
        Seq::empty()
    } else {
        let prefix = rejected_names(desired, subdirs.drop_last());
        if subdir_rejected(desired, subdirs.last()) {
            prefix.push(subdirs.last().name)
        } else {
            prefix
        }
    }
}

/// The ranking order: a higher score first; among equal scores, the
/// lexicographically smaller directory name first.
pub open spec fn cand_le(a: CandidateView, b: CandidateView) -> bool {
    a.score > b.score || (a.score == b.score && lex_le(a.lang_name, b.lang_name))
}

/// Any two candidates are comparable in the ranking order.
pub proof fn lemma_cand_connected(a: CandidateView, b: CandidateView)
    ensures
        cand_le(a, b) || cand_le(b, a),
{
    if a.score == b.score {
        lemma_lex_connected(a.lang_name, b.lang_name);
    }
}

/// The ranking order is transitive.
pub proof fn lemma_cand_le_trans(a: CandidateView, b: CandidateView, c: CandidateView)
    requires
        cand_le(a, b),
        cand_le(b, c),
    ensures
        cand_le(a, c),
{
    if a.score == b.score && b.score == c.score {
        lemma_lex_le_trans(a.lang_name, b.lang_name, c.lang_name);
    }
}

/// Insertion of one candidate into a ranked list: it lands before the first
/// entry it ranks no worse than.
pub open spec fn insert_cand(s: Seq<CandidateView>, v: CandidateView) -> Seq<CandidateView>
    decreases s.len(),
{
    if s.len() == 0 {
        seq![v]
    } else if cand_le(v, s[0]) {
        seq![v] + s
    } else {
        seq![s[0]] + insert_cand(s.drop_first(), v)
    }
}

/// The ranking of a candidate list: insertion sort under `cand_le`.
pub open spec fn sort_cands(s: Seq<CandidateView>) -> Seq<CandidateView>
    decreases s.len(),
{
    if s.len() == 0 {
        Seq::empty()
    } else {
        insert_cand(sort_cands(s.drop_last()), s.last())
    }
}

/// The full negotiated ranking of a subdirectory list.
pub open spec fn negotiated_ranking(desired: TagView, subdirs: Seq<SubdirView>) -> Seq<
    CandidateView,
> {
    sort_cands(scored_candidates(desired, subdirs))
}

/// A list is ranked when no entry ranks strictly better than an earlier one.
pub open spec fn cands_sorted(s: Seq<CandidateView>) -> bool {
    forall|i: int, j: int| 0 <= i < j < s.len() ==> cand_le(s[i], s[j])
}

proof fn lemma_insert_cand_len(s: Seq<CandidateView>, v: CandidateView)
    ensures
        insert_cand(s, v).len() == s.len() + 1,
    decreases s.len(),
{
    if s.len() == 0 {
    } else if cand_le(v, s[0]) {
    } else {
        lemma_insert_cand_len(s.drop_first(), v);
    }
}

proof fn lemma_insert_cand_elems(s: Seq<CandidateView>, v: CandidateView, k: int)
    requires
        0 <= k < insert_cand(s, v).len(),
    ensures
        insert_cand(s, v)[k] == v || exists|j: int|
            0 <= j < s.len() && insert_cand(s, v)[k] == s[j],
    decreases s.len(),
{
    lemma_insert_cand_len(s, v);
    if s.len() == 0 {
    } else if cand_le(v, s[0]) {
        if k > 0 {
            assert(insert_cand(s, v)[k] == s[k - 1]);
        }
    } else {
        if k == 0 {
            assert(insert_cand(s, v)[0] == s[0]);
        } else {
            lemma_insert_cand_elems(s.drop_first(), v, k - 1);
            assert(insert_cand(s, v)[k] == insert_cand(s.drop_first(), v)[k - 1]);
            if insert_cand(s.drop_first(), v)[k - 1] != v {
                let j = choose|j: int|
                    0 <= j < s.drop_first().len() && insert_cand(s.drop_first(), v)[k - 1]
                        == s.drop_first()[j];
                assert(s.drop_first()[j] == s[j + 1]);
            }
        }
    }
}

/// Inserting into a ranked list keeps it ranked.
proof fn lemma_insert_cand_sorted(s: Seq<CandidateView>, v: CandidateView)
    requires
        cands_sorted(s),
    ensures
        cands_sorted(insert_cand(s, v)),
    decreases s.len(),
{
    lemma_insert_cand_len(s, v);
    if s.len() == 0 {
    } else if cand_le(v, s[0]) {
        let r = seq![v] + s;
        assert forall|i: int, j: int| 0 <= i < j < r.len() implies cand_le(r[i], r[j]) by {
            if i == 0 {
                assert(r[j] == s[j - 1]);
                if j == 1 {
                } else {
                    assert(cand_le(s[0], s[j - 1]));
                    lemma_cand_le_trans(v, s[0], s[j - 1]);
                }
            } else {
                assert(r[i] == s[i - 1] && r[j] == s[j - 1]);
            }
        }
    } else {
        lemma_cand_connected(v, s[0]);
        assert(cand_le(s[0], v));
        let t = s.drop_first();
        assert(cands_sorted(t)) by {
            assert(forall|i: int, j: int|
                0 <= i < j < t.len() ==> t[i] == s[i + 1] && t[j] == s[j + 1]);
        }
        lemma_insert_cand_sorted(t, v);
        let ti = insert_cand(t, v);
        let r = seq![s[0]] + ti;
        assert(r == insert_cand(s, v));
        assert forall|i: int, j: int| 0 <= i < j < r.len() implies cand_le(r[i], r[j]) by {
            if i == 0 {
                assert(r[j] == ti[j - 1]);
                lemma_insert_cand_elems(t, v, j - 1);
                if ti[j - 1] == v {
                } else {
                    let q = choose|q: int| 0 <= q < t.len() && ti[j - 1] == t[q];
                    assert(t[q] == s[q + 1]);
                    assert(cand_le(s[0], s[q + 1]));
                }
            } else {
                assert(r[i] == ti[i - 1] && r[j] == ti[j - 1]);
            }
        }
    }
}

/// Every negotiated ranking is ranked: scores descend, and equal scores are
/// ordered by directory name ascending, reproducibly.
pub proof fn lemma_sort_cands_sorted(s: Seq<CandidateView>)
    ensures
        cands_sorted(sort_cands(s)),
    decreases s.len(),
{
    if s.len() == 0 {
    } else {
        lemma_sort_cands_sorted(s.drop_last());
        lemma_insert_cand_sorted(sort_cands(s.drop_last()), s.last());
    }
}

/// Where an element lands: inserting before position `idx` yields exactly
/// the sequence with `v` placed at `idx`.
proof fn lemma_insert_cand_at(s: Seq<CandidateView>, v: CandidateView, idx: int)
    requires
        0 <= idx <= s.len(),
        forall|j: int| 0 <= j < idx ==> !cand_le(v, s[j]),
        idx < s.len() ==> cand_le(v, s[idx]),
    ensures
        insert_cand(s, v) == s.insert(idx, v),
    decreases idx,
{
    lemma_insert_cand_len(s, v);
    if s.len() == 0 {
        assert(insert_cand(s, v) =~= s.insert(0, v));
    } else if idx == 0 {
        assert(cand_le(v, s[0]));
        assert(insert_cand(s, v) =~= s.insert(0, v));
    } else {
        assert(!cand_le(v, s[0]));
        let t = s.drop_first();
        assert(forall|j: int| 0 <= j < idx - 1 ==> t[j] == s[j + 1]);
        assert(idx - 1 < t.len() ==> t[idx - 1] == s[idx]);
        lemma_insert_cand_at(t, v, idx - 1);
        assert(insert_cand(s, v) == seq![s[0]] + insert_cand(t, v));
        assert(seq![s[0]] + t.insert(idx - 1, v) =~= s.insert(idx, v));
    }
}

fn cand_le_exec(a: &Candidate, b: &Candidate) -> (r: bool)
    ensures
        r == cand_le(a@, b@),
{
    if a.score > b.score {
        true
    } else if a.score == b.score {
        str_le(a.lang_name.as_str(), b.lang_name.as_str())
    } else {
        false
    }
}

fn insert_candidate(list: &mut Vec<Candidate>, c: Candidate)
    requires
        forall|i: int| 0 <= i < old(list)@.len() ==> (#[trigger] old(list)@[i]).lid_ok(),
        c.lid_ok(),
    ensures
        final(list).deep_view() == insert_cand(old(list).deep_view(), c@),
        forall|i: int| 0 <= i < final(list)@.len() ==> (#[trigger] final(list)@[i]).lid_ok(),
{
    let mut idx: usize = 0;
    while idx < list.len() && !cand_le_exec(&c, &list[idx])
        invariant
            idx <= list@.len(),
            *list == *old(list),
            c.lid_ok(),
            forall|i: int| 0 <= i < list@.len() ==> (#[trigger] list@[i]).lid_ok(),
            forall|j: int| 0 <= j < idx ==> !cand_le(c@, list.deep_view()[j]),
        decreases list@.len() - idx,
    {
        idx = idx + 1;
    }
    proof {
        lemma_insert_cand_at(list.deep_view(), c@, idx as int);
    }
    let ghost before = list.deep_view();
    list.insert(idx, c);
    proof {
        assert(list.deep_view() =~= before.insert(idx as int, c@));
        assert forall|i: int| 0 <= i < list@.len() implies (#[trigger] list@[i]).lid_ok() by {
            assert(list@ == old(list)@.insert(idx as int, c));
            if i < idx {
                assert(list@[i] == old(list)@[i]);
            } else if i == idx {
                assert(list@[i] == c);
            } else {
                assert(list@[i] == old(list)@[i - 1]);
            }
        }
    }
}

fn sort_candidates(scored: Vec<Candidate>) -> (r: Vec<Candidate>)
    requires
        forall|i: int| 0 <= i < scored@.len() ==> (#[trigger] scored@[i]).lid_ok(),
    ensures
        r.deep_view() == sort_cands(scored.deep_view()),
        forall|i: int| 0 <= i < r@.len() ==> (#[trigger] r@[i]).lid_ok(),
{
    let ghost orig = scored.deep_view();
    let mut rest = scored;
    let mut out: Vec<Candidate> = Vec::new();
    proof {
        assert(rest.deep_view() =~= orig.skip(0));
        assert(out.deep_view() =~= sort_cands(orig.take(0)));
    }
    while rest.len() != 0
        invariant
            rest@.len() <= orig.len(),
            rest.deep_view() =~= orig.skip(orig.len() - rest@.len() as int),
            out.deep_view() =~= sort_cands(orig.take(orig.len() - rest@.len() as int)),
            forall|i: int| 0 <= i < rest@.len() ==> (#[trigger] rest@[i]).lid_ok(),
            forall|i: int| 0 <= i < out@.len() ==> (#[trigger] out@[i]).lid_ok(),
        decreases rest@.len(),
    {
        let ghost done = orig.len() - rest@.len() as int;
        let ghost pre = rest.deep_view();
        let ghost out0 = out.deep_view();
        let c = rest.remove(0);
        proof {
            assert(c@ == pre[0]);
            assert(pre[0] == orig.skip(done)[0]);
            assert(orig.skip(done)[0] == orig[done]);
            assert(rest.deep_view() =~= pre.drop_first());
            assert(pre.drop_first() =~= orig.skip(done + 1));
        }
        insert_candidate(&mut out, c);
        proof {
            assert(orig.take(done + 1).drop_last() =~= orig.take(done));
            assert(orig.take(done + 1).last() == orig[done]);
            assert(out.deep_view() == insert_cand(out0, c@));
            assert(out.deep_view() =~= sort_cands(orig.take(done + 1)));
        }
    }
    proof {
        assert(orig.take(orig.len() as int) =~= orig);
    }
    out
}

fn score_subdirs(desired: &LanguageTag, subdirs: &Vec<crate::listing::SubdirListing>) -> (r: (
    Vec<Candidate>,
    Vec<String>,
))
    ensures
        r.0.deep_view() == scored_candidates(desired@, subdirs.deep_view()),
        r.1.deep_view() == rejected_names(desired@, subdirs.deep_view()),
        forall|i: int| 0 <= i < r.0@.len() ==> (#[trigger] r.0@[i]).lid_ok(),
{
    let ghost sv = subdirs.deep_view();
    let mut kept: Vec<Candidate> = Vec::new();
    let mut rejected: Vec<String> = Vec::new();
    let n = subdirs.len();
    let mut i: usize = 0;
    proof {
        assert(sv.take(0) =~= Seq::<SubdirView>::empty());
    }
    while i < n
        invariant
            i <= n,
            n == subdirs@.len(),
            sv == subdirs.deep_view(),
            kept.deep_view() == scored_candidates(desired@, sv.take(i as int)),
            rejected.deep_view() == rejected_names(desired@, sv.take(i as int)),
            forall|k: int| 0 <= k < kept@.len() ==> (#[trigger] kept@[k]).lid_ok(),
        decreases n - i,
    {
        let ghost kept0 = kept.deep_view();
        let ghost rej0 = rejected.deep_view();
        let sd = &subdirs[i];
        proof {
            assert(sv[i as int] == subdirs@[i as int].deep_view());
        }
        match parse_tag(sd.name.as_str()) {
            Some(pair) => {
                let (lid, tag) = pair;
                let score = language_matches_score(&tag, desired);
                if score >= 1 {
                    let c = Candidate {
                        lid,
                        tag,
                        lang_name: sd.name.clone(),
                        dir_path: sd.path.clone(),
                        score,
                    };
                    proof {
                        assert(c@ == candidate_of(desired@, sv[i as int]));
                    }
                    kept.push(c);
                    proof {
                        assert(kept.deep_view() =~= kept0.push(candidate_of(desired@, sv[i as int])));
                    }
                } else {
                    rejected.push(sd.name.clone());
                    proof {
                        assert(rejected.deep_view() =~= rej0.push(sv[i as int].name));
                    }
                }
            },
            None => {},
        }
        proof {
            assert(sv.take(i + 1).drop_last() =~= sv.take(i as int));
            assert(sv.take(i + 1).last() == sv[i as int]);
        }
        i = i + 1;
    }
    proof {
        assert(sv.take(n as int) =~= sv);
    }
    (kept, rejected)
}

/// Rank the base directory's subdirectories against the desired tag.
///
/// A missing base directory, like an empty ranking, is an error unless the
/// degrade policy is on, in which case it yields the empty ranking. The
/// ranking itself is exactly the kept candidates sorted by score descending
/// and directory name ascending.
pub fn negotiate(
    desired: &LanguageTag,
    desired_name: &String,
    listing: &DirListing,
    donnot_panic: bool,
) -> (r: Result<Vec<Candidate>, LanguageChoiceError>)
    ensures
        !listing.found ==> (if donnot_panic {
            r is Ok && r->Ok_0@.len() == 0
        } else {
            r matches Err(LanguageChoiceError::NoLanguageFilesAt(p)) && p@ == listing.shown_path@
        }),
        listing.found ==> {
            let ranking = negotiated_ranking(desired@, listing.subdirs.deep_view());
            if ranking.len() > 0 {
                r is Ok && r->Ok_0.deep_view() == ranking
            } else if donnot_panic {
                r is Ok && r->Ok_0@.len() == 0
            } else {
                r matches Err(LanguageChoiceError::LanguageNegotiatedFailed(d, names)) && d@
                    == desired_name@ && names.deep_view() == rejected_names(
                    desired@,
                    listing.subdirs.deep_view(),
                )
            }
        },
        r is Ok ==> forall|i: int| 0 <= i < r->Ok_0@.len() ==> (#[trigger] r->Ok_0@[i]).lid_ok(),
{
    if !listing.found {
        if donnot_panic {
            return Ok(Vec::new());
        }
        return Err(LanguageChoiceError::NoLanguageFilesAt(listing.shown_path.clone()));
    }
    let (kept, rejected) = score_subdirs(desired, &listing.subdirs);
    let ranked = sort_candidates(kept);
    if ranked.len() > 0 {
        Ok(ranked)
    } else if donnot_panic {
        Ok(ranked)
    } else {
        Err(
            LanguageChoiceError::LanguageNegotiatedFailed(
                desired_name.clone(),
                rejected,
            ),
        )
    }
}

} // verus!
