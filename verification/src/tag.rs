use vstd::prelude::*;

verus! {

/// Mathematical model of a language tag: the language code plus the optional
/// script and region subtags and the ordered variant list.
pub ghost struct TagView {
    pub language: Seq<char>,
    pub script: Option<Seq<char>>,
    pub region: Option<Seq<char>>,
    pub variants: Seq<Seq<char>>,
}

/// A parsed language tag. Values are only produced by validated parsing
/// (see `parse_tag`) or written out field by field in callers that need a
/// fixed tag, so every component is already a well-formed subtag.
#[derive(Debug)]
pub struct LanguageTag {
    pub language: String,
    pub script: Option<String>,
    pub region: Option<String>,
    pub variants: Vec<String>,
}

impl View for LanguageTag {
    type V = TagView;

    open spec fn view(&self) -> TagView {
        TagView {
            language: self.language@,
            script: match self.script {
                Some(s) => Some(s@),
                None => None,
            },
            region: match self.region {
                Some(r) => Some(r@),
                None => None,
            },
            variants: self.variants.deep_view(),
        }
    }
}

/// The match relation between two tags, gated by the two ignore flags:
/// the language codes must be equal; unless scripts are ignored the script
/// subtags must be equal; unless region data is ignored the region subtags
/// and the variant lists must be equal.
pub open spec fn tag_matches(a: TagView, b: TagView, ignore_script: bool, ignore_region: bool) -> bool {
    &&& a.language == b.language
    &&& (ignore_script || a.script == b.script)
    &&& (ignore_region || (a.region == b.region && a.variants == b.variants))
}

/// The four match checks packed into one score: bit 3 for the strict match,
/// bit 2 for the script-respecting match (region ignored), bit 1 for the
/// region-respecting match (script ignored), bit 0 for the language-only
/// match. A higher value ranks a candidate closer to the desired tag.
pub open spec fn spec_score(a: TagView, b: TagView) -> int {
    (if tag_matches(a, b, false, false) {
        8int
    } else {
        0int
    }) + (if tag_matches(a, b, false, true) {
        4int
    } else {
        0int
    }) + (if tag_matches(a, b, true, false) {
        2int
    } else {
        0int
    }) + (if tag_matches(a, b, true, true) {
        1int
    } else {
        0int
    })
}

fn opt_str_equal(a: &Option<String>, b: &Option<String>) -> (r: bool)
    ensures
        r == (match a {
            Some(x) => Some(x@),
            None => None,
        } == match b {
            Some(y) => Some(y@),
            None => None,
        }),
{
    match (a, b) {
        (Some(x), Some(y)) => x.eq(y),
        (None, None) => true,
        _ => false,
    }
}

fn vec_str_equal(a: &Vec<String>, b: &Vec<String>) -> (r: bool)
    ensures
        r == (a.deep_view() == b.deep_view()),
{
    if a.len() != b.len() {
        assert(a.deep_view().len() == a@.len());
        assert(b.deep_view().len() == b@.len());
        return false;
    }
    let n = a.len();
    let mut i: usize = 0;
    while i < n
        invariant
            n == a@.len() == b@.len(),
            i <= n,
            forall|j: int| 0 <= j < i ==> a.deep_view()[j] == b.deep_view()[j],
        decreases n - i,
    {
        if !a[i].eq(&b[i]) {
            assert(a.deep_view()[i as int] != b.deep_view()[i as int]);
            return false;
        }
        assert(a.deep_view()[i as int] == b.deep_view()[i as int]);
        i = i + 1;
    }
    proof {
        assert(a.deep_view() =~= b.deep_view());
    }
    true
}

impl LanguageTag {
    /// The executable match relation; see `tag_matches`.
    pub fn matches(&self, other: &LanguageTag, ignore_script: bool, ignore_region: bool) -> (r: bool)
        ensures
            r == tag_matches(self@, other@, ignore_script, ignore_region),
    {
        if !self.language.eq(&other.language) {
            return false;
        }
        if !ignore_script && !opt_str_equal(&self.script, &other.script) {
            return false;
        }
        if !ignore_region {
            if !opt_str_equal(&self.region, &other.region) {
                return false;
            }
            if !vec_str_equal(&self.variants, &other.variants) {
                return false;
            }
        }
        true
    }
}

/// The candidate score of `l1` against the desired tag `l2`; see `spec_score`.
pub fn language_matches_score(l1: &LanguageTag, l2: &LanguageTag) -> (score: u8)
    ensures
        score as int == spec_score(l1@, l2@),
        score <= 15,
{
    let mut base: u8 = 0;
    if l1.matches(l2, false, false) {
        base = base + 8;
    }
    if l1.matches(l2, false, true) {
        base = base + 4;
    }
    if l1.matches(l2, true, false) {
        base = base + 2;
    }
    if l1.matches(l2, true, true) {
        base = base + 1;
    }
    base
}

} // verus!
