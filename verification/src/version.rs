//! The version resolver: turns a user-supplied version token into a concrete
//! version string, using a fetched index of version families.

use vstd::prelude::*;
use crate::error::Error;
use crate::text::{
    all_digits, all_digits_in, contains_char, find_char_from, is_digit_char, str_eq, trim_bounds,
    trim_spec,
};

verus! {

// --- family keys ------------------------------------------------------------

/// A family key: after trimming surrounding whitespace, exactly two
/// non-empty all-digit segments separated by a single dot, e.g. `"1.21"`.
/// Any other character, an embedded hyphen included, disqualifies the token.
pub open spec fn is_family_key(s: Seq<char>) -> bool {
    let t = trim_spec(s);
    exists|k: int|
        0 < k < t.len() - 1 && #[trigger] t[k] == '.' && all_digits(t.take(k)) && all_digits(
            t.skip(k + 1),
        )
}

/// Whether the token names a version family rather than an exact version.
pub fn looks_like_family_key(s: &str) -> (b: bool)
    ensures
        b == is_family_key(s@),
{
    let bounds = trim_bounds(s);
    let start = bounds.0;
    let end = bounds.1;
    let ghost t = trim_spec(s@);
    proof {
        assert(t =~= s@.subrange(start as int, end as int));
    }
    let dot = find_char_from(s, start, end, '.');
    if dot == end {
        proof {
            assert(forall|k: int| 0 <= k < t.len() ==> #[trigger] t[k] != '.');
        }
        return false;
    }
    if dot == start || dot + 1 == end {
        proof {
            let di = dot - start;
            assert forall|k: int| 0 < k < t.len() - 1 implies !(#[trigger] t[k] == '.'
                && all_digits(t.take(k)) && all_digits(t.skip(k + 1))) by {
                if t[k] == '.' && all_digits(t.take(k)) && all_digits(t.skip(k + 1)) {
                    if di == 0 {
                        assert(t.take(k)[0] == t[0]);
                        assert(is_digit_char(t[0]));
                    } else {
                        assert(di == t.len() - 1);
                        assert(t.skip(k + 1)[t.len() - 1 - (k + 1)] == t[t.len() - 1]);
                        assert(is_digit_char(t[t.len() - 1]));
                    }
                }
            }
        }
        return false;
    }
    let left_ok = all_digits_in(s, start, dot);
    let right_ok = all_digits_in(s, dot + 1, end);
    let ghost di = dot - start;
    if left_ok && right_ok {
        proof {
            assert(t.take(di) =~= s@.subrange(start as int, dot as int));
            assert(t.skip(di + 1) =~= s@.subrange(dot + 1, end as int));
            assert(t[di] == '.' && all_digits(t.take(di)) && all_digits(t.skip(di + 1)));
        }
        true
    } else {
        proof {
            // Some character in one of the two segments around the first dot
            // is not a digit; no split position can then satisfy the spec.
            let left = s@.subrange(start as int, dot as int);
            let right = s@.subrange(dot + 1, end as int);
            let p: int = if !all_digits(left) {
                let q = choose|q: int| 0 <= q < left.len() && !is_digit_char(left[q]);
                assert(left[q] == t[q]);
                q
            } else {
                let q = choose|q: int| 0 <= q < right.len() && !is_digit_char(right[q]);
                assert(right[q] == t[di + 1 + q]);
                di + 1 + q
            };
            assert(0 <= p < t.len() && !is_digit_char(t[p]) && p != di);
            assert forall|k: int| 0 < k < t.len() - 1 implies !(#[trigger] t[k] == '.'
                && all_digits(t.take(k)) && all_digits(t.skip(k + 1))) by {
                if t[k] == '.' && all_digits(t.take(k)) && all_digits(t.skip(k + 1)) {
                    // The first dot sits at di, so k cannot be left of it.
                    if k < di {
                        assert(t.skip(k + 1)[di - (k + 1)] == t[di]);
                        assert(is_digit_char(t[di]));
                    } else if k == di {
                        if p < k {
                            assert(t.take(k)[p] == t[p]);
                        } else {
                            assert(t.skip(k + 1)[p - (k + 1)] == t[p]);
                        }
                    } else {
                        // k > di: the dot at di falls inside the left segment.
                        assert(t.take(k)[di] == t[di]);
                        assert(is_digit_char(t[di]));
                    }
                }
            }
        }
        false
    }
}

// --- picking a version inside a family ---------------------------------------

/// The first entry that is not a pre-release (contains no `'-'`).
pub open spec fn first_non_prerelease(vs: Seq<Seq<char>>) -> Option<Seq<char>>
    decreases vs.len(),
{
    if vs.len() == 0 {
        None
    } else if !vs[0].contains('-') {
        Some(vs[0])
    } else {
        first_non_prerelease(vs.drop_first())
    }
}

/// The version picked for a family: the first entry that is not a
/// pre-release; if every entry is a pre-release, the first entry (the index
/// is assumed to publish most-recent first).
pub open spec fn best_version(vs: Seq<Seq<char>>) -> Option<Seq<char>> {
    match first_non_prerelease(vs) {
        Some(v) => Some(v),
        None => if vs.len() > 0 {
            Some(vs[0])
        } else {
            None
        },
    }
}

proof fn lemma_first_non_prerelease_at(vs: Seq<Seq<char>>, i: int)
    requires
        0 <= i < vs.len(),
        forall|j: int| 0 <= j < i ==> #[trigger] vs[j].contains('-'),
        !vs[i].contains('-'),
    ensures
        first_non_prerelease(vs) == Some(vs[i]),
    decreases i,
{
    if i > 0 {
        lemma_first_non_prerelease_at(vs.drop_first(), i - 1);
    }
}

proof fn lemma_no_non_prerelease(vs: Seq<Seq<char>>)
    requires
        forall|j: int| 0 <= j < vs.len() ==> #[trigger] vs[j].contains('-'),
    ensures
        first_non_prerelease(vs) is None,
    decreases vs.len(),
{
    if vs.len() > 0 {
        lemma_no_non_prerelease(vs.drop_first());
    }
}

/// Picks the version to use out of a family's ordered version sequence.
pub fn pick_best_version_for_family(versions: &Vec<String>) -> (r: Option<String>)
    ensures
        match r {
            Some(v) => best_version(versions.deep_view()) == Some(v@),
            None => versions@.len() == 0,
        },
{
    let ghost vs = versions.deep_view();
    let n = versions.len();
    let mut i: usize = 0;
    while i < n
        invariant
            i <= n,
            n == versions@.len(),
            vs == versions.deep_view(),
            forall|j: int| 0 <= j < i ==> #[trigger] vs[j].contains('-'),
        decreases n - i,
    {
        let v: &String = &versions[i];
        let has_dash = contains_char(v.as_str(), '-');
        proof {
            assert(vs[i as int] == v@);
        }
        if !has_dash {
            proof {
                assert(!vs[i as int].contains('-'));
                lemma_first_non_prerelease_at(vs, i as int);
            }
            return Some(v.clone());
        }
        i = i + 1;
    }
    proof {
        lemma_no_non_prerelease(vs);
    }
    if n > 0 {
        proof {
            assert(vs[0] == versions@[0]@);
        }
        Some(versions[0].clone())
    } else {
        None
    }
}

// --- the version index --------------------------------------------------------

/// One family of the index: a family key and its ordered concrete versions,
/// most recent first as published.
pub struct FamilyVersions {
    pub family: String,
    pub versions: Vec<String>,
}

/// The fetched version index: a mapping from family key to the ordered
/// concrete versions of that family.
pub struct VersionIndex {
    pub families: Vec<FamilyVersions>,
}

impl View for VersionIndex {
    type V = Map<Seq<char>, Seq<Seq<char>>>;

    open spec fn view(&self) -> Map<Seq<char>, Seq<Seq<char>>> {
        Map::new(
            |k: Seq<char>|
                exists|i: int|
                    0 <= i < self.families@.len() && #[trigger] self.families@[i].family@ == k,
            |k: Seq<char>|
                {
                    let i = choose|i: int|
                        0 <= i < self.families@.len() && #[trigger] self.families@[i].family@ == k;
                    self.families@[i].versions.deep_view()
                },
        )
    }
}

impl VersionIndex {
    /// Family keys are unique, so the map view is faithful.
    pub open spec fn wf(self) -> bool {
        forall|i: int, j: int|
            0 <= i < j < self.families@.len() ==> #[trigger] self.families@[i].family@
                != #[trigger] self.families@[j].family@
    }

    /// Looks a family key up in the index.
    pub fn lookup(&self, key: &str) -> (r: Option<&Vec<String>>)
        requires
            self.wf(),
        ensures
            match r {
                Some(vs) => self@.contains_key(key@) && vs.deep_view() == self@[key@],
                None => !self@.contains_key(key@),
            },
    {
        let n = self.families.len();
        let mut i: usize = 0;
        while i < n
            invariant
                i <= n,
                n == self.families@.len(),
                self.wf(),
                forall|j: int| 0 <= j < i ==> #[trigger] self.families@[j].family@ != key@,
            decreases n - i,
        {
            let fam: &FamilyVersions = &self.families[i];
            if str_eq(fam.family.as_str(), key) {
                proof {
                    let w = choose|w: int|
                        0 <= w < self.families@.len() && #[trigger] self.families@[w].family@
                            == key@;
                    assert(w == i as int);
                }
                return Some(&fam.versions);
            }
            i = i + 1;
        }
        None
    }
}

/// Resolves a version token against the index: an exact version passes
/// through unchanged; a family key resolves to the family's best version.
/// Fails with `NotFound` when the family is absent or has no versions.
pub fn resolve_paper_version(version: &str, index: &VersionIndex) -> (r: Result<String, Error>)
    requires
        index.wf(),
    ensures
        !is_family_key(version@) ==> (r matches Ok(v) && v@ == version@),
        is_family_key(version@) && !index@.contains_key(version@) ==> r == Err::<
            String,
            Error,
        >(Error::NotFound),
        is_family_key(version@) && index@.contains_key(version@) ==> (match best_version(
            index@[version@],
        ) {
            Some(bv) => r matches Ok(v) && v@ == bv,
            None => r == Err::<String, Error>(Error::NotFound),
        }),
{
    if !looks_like_family_key(version) {
        return Ok(version.to_owned());
    }
    match index.lookup(version) {
        None => Err(Error::NotFound),
        Some(vs) => match pick_best_version_for_family(vs) {
            Some(v) => Ok(v),
            None => Err(Error::NotFound),
        },
    }
}

} // verus!
