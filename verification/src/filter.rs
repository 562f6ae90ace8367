//! The exclusion engine: a prioritized list of glob patterns, each attributed
//! to a category, and the first-match policy that decides whether a path is
//! excluded.
//!
//! Paths are modelled as strings: the basename is everything after the last
//! `/`, and a path is made relative to a base directory by stripping the base
//! and the separator that follows it.

use vstd::prelude::*;
use vstd::string::StrSliceExecFns;
use vstd::string::StringExecFns;
use crate::catalog::spec_category_for_pattern;
use crate::catalog::spec_filtered_patterns;
use crate::catalog::get_category_for_pattern;
use crate::catalog::get_filtered_patterns;
use crate::strkit::str_eq;

verus! {

/// Whether a pattern string is a valid glob, exactly as `glob::Pattern::new`
/// accepts it.
pub uninterp spec fn glob_ok(pattern: Seq<char>) -> bool;

/// Whether a valid glob pattern matches a text, exactly as
/// `glob::Pattern::matches` decides it.
pub uninterp spec fn glob_match(pattern: Seq<char>, text: Seq<char>) -> bool;

/// Relies on `glob::Pattern::new`: it returns `Ok` exactly when the pattern
/// string is a valid glob.
#[verifier::external_body]
fn glob_compiles(pattern: &str) -> (r: bool)
    ensures
        r == glob_ok(pattern@),
{
    glob::Pattern::new(pattern).is_ok()
}

/// Relies on `glob::Pattern::new` and `glob::Pattern::matches`: compiling a
/// valid pattern succeeds, and whether it matches a text is a function of the
/// pattern string and the text alone.
#[verifier::external_body]
fn glob_matches_str(pattern: &str, text: &str) -> (r: bool)
    requires
        glob_ok(pattern@),
    ensures
        r == glob_match(pattern@, text@),
{
    match glob::Pattern::new(pattern) {
        Ok(p) => p.matches(text),
        Err(_) => false,
    }
}

/// The error for an exclude string that is not a valid glob; fatal to the
/// whole run.
#[derive(Debug)]
pub struct PatternError {
    pub pattern: String,
}

/// Why a path was excluded: the glob pattern that fired, and the display name
/// of the category the pattern was attributed to.
#[derive(Debug)]
pub struct ExclusionReason {
    pub pattern: String,
    pub category: String,
}

/// The mathematical value of a reason, and of one compiled filter entry.
#[verifier::ext_equal]
pub ghost struct ReasonV {
    pub pattern: Seq<char>,
    pub category: Seq<char>,
}

impl View for ExclusionReason {
    type V = ReasonV;

    open spec fn view(&self) -> ReasonV {
        ReasonV { pattern: self.pattern@, category: self.category@ }
    }
}

impl DeepView for ExclusionReason {
    type V = ReasonV;

    open spec fn deep_view(&self) -> ReasonV {
        self.view()
    }
}

impl Clone for ExclusionReason {
    fn clone(&self) -> (r: Self)
        ensures
            r@ == self@,
    {
        ExclusionReason { pattern: self.pattern.clone(), category: self.category.clone() }
    }
}

/// One compiled filter entry: a pattern and its attributed category.
#[derive(Debug)]
pub struct FilterEntry {
    pub pattern: String,
    pub category: String,
}

impl View for FilterEntry {
    type V = ReasonV;

    open spec fn view(&self) -> ReasonV {
        ReasonV { pattern: self.pattern@, category: self.category@ }
    }
}

impl DeepView for FilterEntry {
    type V = ReasonV;

    open spec fn deep_view(&self) -> ReasonV {
        self.view()
    }
}

/// The final path component: the characters after the last `/`, empty when
/// the path is empty or ends with `/`.
pub open spec fn spec_basename(p: Seq<char>) -> Seq<char>
    decreases p.len(),
{
    if p.len() == 0 {
        p
    } else if p.last() == '/' {
        Seq::empty()
    } else {
        spec_basename(p.drop_last()).push(p.last())
    }
}

/// The path made relative to a base directory: the base and the separator
/// after it are stripped when the base is a proper prefix; a path equal to
/// the base becomes empty; otherwise the path is unchanged.
pub open spec fn spec_rel_path(p: Seq<char>, base: Seq<char>) -> Seq<char> {
    if base.len() == 0 {
        p
    } else if p == base {
        Seq::empty()
    } else if p.len() > base.len() && p.take(base.len() as int) == base && base.last() == '/' {
        p.skip(base.len() as int)
    } else if p.len() > base.len() && p.take(base.len() as int) == base && p[base.len() as int]
        == '/' {
        p.skip(base.len() as int + 1)
    } else {
        p
    }
}

/// The first entry of `entries[i..]` whose pattern matches the basename or
/// the relative path.
pub open spec fn spec_match_from(
    entries: Seq<ReasonV>,
    name: Seq<char>,
    rel: Seq<char>,
    i: int,
) -> Option<ReasonV>
    decreases entries.len() - i,
{
    if i < 0 || i >= entries.len() {
        None
    } else if glob_match(entries[i].pattern, name) || glob_match(entries[i].pattern, rel) {
        Some(entries[i])
    } else {
        spec_match_from(entries, name, rel, i + 1)
    }
}

/// The reason an entry with the given basename and relative path is excluded:
/// the first matching entry, and none when the basename is empty.
pub open spec fn spec_entry_reason(
    entries: Seq<ReasonV>,
    name: Seq<char>,
    rel: Seq<char>,
) -> Option<ReasonV> {
    if name.len() == 0 {
        None
    } else {
        spec_match_from(entries, name, rel, 0)
    }
}

/// The reason a path under a base directory is excluded.
pub open spec fn spec_reason(entries: Seq<ReasonV>, p: Seq<char>, base: Seq<char>) -> Option<
    ReasonV,
> {
    spec_entry_reason(entries, spec_basename(p), spec_rel_path(p, base))
}

proof fn lemma_basename_no_slash(p: Seq<char>)
    requires
        forall|j: int| 0 <= j < p.len() ==> p[j] != '/',
    ensures
        spec_basename(p) =~= p,
    decreases p.len(),
{
    if p.len() > 0 {
        lemma_basename_no_slash(p.drop_last());
    }
}

proof fn lemma_basename_after_slash(p: Seq<char>, k: int)
    requires
        0 <= k < p.len(),
        p[k] == '/',
        forall|j: int| k < j < p.len() ==> p[j] != '/',
    ensures
        spec_basename(p) =~= p.skip(k + 1),
    decreases p.len(),
{
    if k == p.len() - 1 {
    } else {
        lemma_basename_after_slash(p.drop_last(), k);
        assert(p.drop_last().skip(k + 1) =~= p.skip(k + 1).drop_last());
    }
}

/// The final path component of a string path.
pub fn basename<'a>(p: &'a str) -> (r: &'a str)
    ensures
        r@ == spec_basename(p@),
{
    let l = p.unicode_len();
    let mut i: usize = l;
    loop
        invariant
            l == p@.len(),
            i <= l,
            forall|j: int| i <= j < l ==> p@[j] != '/',
        decreases i,
    {
        if i == 0 {
            proof {
                lemma_basename_no_slash(p@);
            }
            return p.substring_char(0, l);
        }
        let c = p.get_char(i - 1);
        if c == '/' {
            proof {
                lemma_basename_after_slash(p@, i - 1);
            }
            return p.substring_char(i, l);
        }
        i = i - 1;
    }
}

fn str_is_prefix(p: &str, base: &str) -> (r: bool)
    ensures
        r == (p@.len() >= base@.len() && p@.take(base@.len() as int) == base@),
{
    let lp = p.unicode_len();
    let lb = base.unicode_len();
    if lp < lb {
        return false;
    }
    let mut i: usize = 0;
    loop
        invariant
            lp == p@.len(),
            lb == base@.len(),
            lb <= lp,
            i <= lb,
            forall|j: int| 0 <= j < i ==> p@[j] == base@[j],
        decreases lb - i,
    {
        if i >= lb {
            proof {
                assert(p@.take(lb as int) =~= base@);
            }
            return true;
        }
        if p.get_char(i) != base.get_char(i) {
            proof {
                assert(p@.take(lb as int)[i as int] == p@[i as int]);
            }
            return false;
        }
        i = i + 1;
    }
}

/// The path made relative to the base directory, as a borrowed slice of `p`.
pub fn rel_path<'a>(p: &'a str, base: &str) -> (r: &'a str)
    ensures
        r@ == spec_rel_path(p@, base@),
{
    let lp = p.unicode_len();
    let lb = base.unicode_len();
    if lb == 0 {
        return p.substring_char(0, lp);
    }
    if str_eq(p, base) {
        return p.substring_char(0, 0);
    }
    if lp > lb && str_is_prefix(p, base) {
        if base.get_char(lb - 1) == '/' {
            return p.substring_char(lb, lp);
        }
        if p.get_char(lb) == '/' {
            return p.substring_char(lb + 1, lp);
        }
    }
    p.substring_char(0, lp)
}

/// A compiled filter: the flattened, ordered pattern list with each pattern's
/// attributed category. Every pattern it holds is a valid glob.
#[derive(Debug)]
pub struct Filter {
    entries: Vec<FilterEntry>,
}

impl View for Filter {
    type V = Seq<ReasonV>;

    closed spec fn view(&self) -> Seq<ReasonV> {
        self.entries.deep_view()
    }
}

/// The entries a custom-only filter compiles to: each pattern attributed to
/// the `Custom` category.
pub open spec fn spec_custom_entries(patterns: Seq<Seq<char>>) -> Seq<ReasonV> {
    patterns.map_values(|p: Seq<char>| ReasonV { pattern: p, category: "Custom"@ })
}

/// The entries a defaults-plus-custom filter compiles to: every pattern
/// attributed to the first catalog category that lists it, `Custom` otherwise.
pub open spec fn spec_default_entries(patterns: Seq<Seq<char>>) -> Seq<ReasonV> {
    patterns.map_values(
        |p: Seq<char>| ReasonV { pattern: p, category: spec_category_for_pattern(p) },
    )
}

/// Whether every pattern in the list is a valid glob.
pub open spec fn spec_all_globs_ok(patterns: Seq<Seq<char>>) -> bool {
    forall|i: int| 0 <= i < patterns.len() ==> glob_ok(#[trigger] patterns[i])
}

impl Filter {
    #[verifier::type_invariant]
    spec fn wf(self) -> bool {
        forall|i: int| 0 <= i < self.entries.deep_view().len() ==> glob_ok(
            #[trigger] self.entries.deep_view()[i].pattern,
        )
    }

    /// Compiles a filter from custom patterns alone; no default category
    /// contributes. Fails with the first pattern that is not a valid glob.
    pub fn new(patterns: Vec<String>) -> (r: Result<Filter, PatternError>)
        ensures
            r is Ok <==> spec_all_globs_ok(patterns.deep_view()),
            r matches Ok(f) ==> f@ == spec_custom_entries(patterns.deep_view()),
            r matches Err(e) ==> exists|i: int|
                0 <= i < patterns.deep_view().len() && !glob_ok(#[trigger] patterns.deep_view()[i])
                    && e.pattern@ == patterns.deep_view()[i] && (forall|j: int|
                    0 <= j < i ==> glob_ok(#[trigger] patterns.deep_view()[j])),
    {
        let ghost patsv = patterns.deep_view();
        let mut entries: Vec<FilterEntry> = Vec::new();
        let mut i: usize = 0;
        while i < patterns.len()
            invariant
                patsv == patterns.deep_view(),
                i <= patterns@.len(),
                entries.deep_view() =~= spec_custom_entries(patsv.take(i as int)),
                forall|j: int| 0 <= j < i ==> glob_ok(#[trigger] patsv[j]),
            decreases patterns@.len() - i,
        {
            if !glob_compiles(patterns[i].as_str()) {
                return Err(PatternError { pattern: patterns[i].clone() });
            }
            let ghost e0 = entries.deep_view();
            entries.push(
                FilterEntry { pattern: patterns[i].clone(), category: String::from_str("Custom") },
            );
            proof {
                assert(entries.deep_view() =~= e0.push(
                    ReasonV { pattern: patsv[i as int], category: "Custom"@ },
                ));
                assert(entries.deep_view() =~= spec_custom_entries(patsv.take(i + 1)));
            }
            i = i + 1;
        }
        proof {
            assert(patsv.take(patterns@.len() as int) =~= patsv);
        }
        let f = Filter { entries };
        proof {
            assert(f.wf());
        }
        Ok(f)
    }

    /// Compiles a filter from the enabled default categories followed by the
    /// given additional patterns. Fails with the first pattern that is not a
    /// valid glob.
    pub fn new_with_defaults(additional_patterns: Vec<String>, disabled_category_ids: &[String])
        -> (r: Result<Filter, PatternError>)
        ensures
            ({
                let all = spec_filtered_patterns(disabled_category_ids.deep_view())
                    + additional_patterns.deep_view();
                &&& (r is Ok <==> spec_all_globs_ok(all))
                &&& (r matches Ok(f) ==> f@ == spec_default_entries(all))
                &&& (r matches Err(e) ==> exists|i: int|
                    0 <= i < all.len() && !glob_ok(#[trigger] all[i]) && e.pattern@ == all[i] && (
                    forall|j: int| 0 <= j < i ==> glob_ok(#[trigger] all[j])))
            }),
    {
        let mut all = get_filtered_patterns(disabled_category_ids);
        let ghost defaults = all.deep_view();
        let mut additional = additional_patterns;
        let ghost addv = additional.deep_view();
        let mut k: usize = 0;
        while k < additional.len()
            invariant
                addv == additional.deep_view(),
                k <= additional@.len(),
                all.deep_view() =~= defaults + addv.take(k as int),
            decreases additional@.len() - k,
        {
            let ghost a0 = all.deep_view();
            all.push(additional[k].clone());
            proof {
                assert(all.deep_view() =~= a0.push(addv[k as int]));
                assert(all.deep_view() =~= defaults + addv.take(k + 1));
            }
            k = k + 1;
        }
        proof {
            assert(addv.take(additional@.len() as int) =~= addv);
        }
        let ghost allv = defaults + addv;
        proof {
            assert(all.deep_view() =~= allv);
            assert(defaults == spec_filtered_patterns(disabled_category_ids.deep_view()));
            assert(addv == additional_patterns.deep_view());
            assert(allv == spec_filtered_patterns(disabled_category_ids.deep_view())
                + additional_patterns.deep_view());
        }
        let mut entries: Vec<FilterEntry> = Vec::new();
        let mut i: usize = 0;
        while i < all.len()
            invariant
                allv == all.deep_view(),
                allv == spec_filtered_patterns(disabled_category_ids.deep_view())
                    + additional_patterns.deep_view(),
                i <= all@.len(),
                entries.deep_view() =~= spec_default_entries(allv.take(i as int)),
                forall|j: int| 0 <= j < i ==> glob_ok(#[trigger] allv[j]),
            decreases all@.len() - i,
        {
            if !glob_compiles(all[i].as_str()) {
                proof {
                    assert(allv.len() == all@.len());
                    assert(all.deep_view()[i as int] == allv[i as int]);
                    assert(!glob_ok(allv[i as int]));
                }
                let e = PatternError { pattern: all[i].clone() };
                proof {
                    assert(exists|b: int|
                        0 <= b < allv.len() && !glob_ok(#[trigger] allv[b]) && e.pattern@ == allv[b]
                            && (forall|j: int| 0 <= j < b ==> glob_ok(#[trigger] allv[j]))) by {
                        assert(0 <= i < allv.len() && !glob_ok(allv[i as int]) && e.pattern@
                            == allv[i as int] && (forall|j: int|
                            0 <= j < i ==> glob_ok(#[trigger] allv[j])));
                    }
                    assert(!spec_all_globs_ok(allv));
                }
                return Err(e);
            }
            let category = get_category_for_pattern(all[i].as_str());
            let ghost e0 = entries.deep_view();
            entries.push(FilterEntry { pattern: all[i].clone(), category });
            proof {
                assert(entries.deep_view() =~= e0.push(
                    ReasonV {
                        pattern: allv[i as int],
                        category: spec_category_for_pattern(allv[i as int]),
                    },
                ));
                assert(entries.deep_view() =~= spec_default_entries(allv.take(i + 1)));
            }
            i = i + 1;
        }
        proof {
            assert(allv.take(all@.len() as int) =~= allv);
        }
        let f = Filter { entries };
        proof {
            assert(f.wf());
        }
        Ok(f)
    }

    /// How many compiled pattern entries the filter holds.
    pub fn pattern_count(&self) -> (r: usize)
        ensures
            r == self@.len(),
    {
        self.entries.len()
    }

    /// The first compiled entry whose pattern matches the given basename or
    /// relative path, or none. An empty basename never matches.
    pub fn reason_for(&self, name: &str, rel: &str) -> (r: Option<ExclusionReason>)
        ensures
            r.deep_view() == spec_entry_reason(self@, name@, rel@),
    {
        proof {
            use_type_invariant(&*self);
        }
        if name.unicode_len() == 0 {
            return None;
        }
        let mut i: usize = 0;
        loop
            invariant
                self.wf(),
                name@.len() > 0,
                i <= self.entries@.len(),
                spec_match_from(self@, name@, rel@, 0) == spec_match_from(
                    self@,
                    name@,
                    rel@,
                    i as int,
                ),
            decreases self.entries@.len() - i,
        {
            if i >= self.entries.len() {
                return None;
            }
            let e = &self.entries[i];
            if glob_matches_str(e.pattern.as_str(), name) || glob_matches_str(
                e.pattern.as_str(),
                rel,
            ) {
                return Some(
                    ExclusionReason { pattern: e.pattern.clone(), category: e.category.clone() },
                );
            }
            i = i + 1;
        }
    }

    /// Why the path, taken relative to the base directory, is excluded:
    /// the first matching pattern with its category, or none.
    pub fn get_exclusion_reason(&self, path: &str, base_dir: &str, _is_dir: bool) -> (r: Option<
        ExclusionReason,
    >)
        ensures
            r.deep_view() == spec_reason(self@, path@, base_dir@),
    {
        let name = basename(path);
        let rel = rel_path(path, base_dir);
        self.reason_for(name, rel)
    }

    /// Whether the path, taken relative to the base directory, is excluded.
    pub fn should_exclude(&self, path: &str, base_dir: &str, is_dir: bool) -> (r: bool)
        ensures
            r == (spec_reason(self@, path@, base_dir@) is Some),
    {
        self.get_exclusion_reason(path, base_dir, is_dir).is_some()
    }
}

} // verus!
