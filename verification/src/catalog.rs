//! The built-in catalog of exclusion categories.
//!
//! Each category groups glob patterns that share a purpose (version-control
//! artifacts, build output, and so on). The catalog is an immutable table
//! compiled into the crate; `spec_catalog` is its mathematical value and every
//! catalog query is specified against it.

use vstd::prelude::*;
use vstd::string::StringExecFns;
use crate::strkit::str_eq;

verus! {

/// One category of exclusion patterns: a stable identifier, a display name,
/// a description, and the ordered glob patterns it contributes.
pub struct ExclusionCategory {
    pub id: String,
    pub name: String,
    pub description: String,
    pub patterns: Vec<String>,
}

/// The mathematical value of a category: every field as a sequence.
#[verifier::ext_equal]
pub ghost struct CategoryV {
    pub id: Seq<char>,
    pub name: Seq<char>,
    pub description: Seq<char>,
    pub patterns: Seq<Seq<char>>,
}

impl View for ExclusionCategory {
    type V = CategoryV;

    open spec fn view(&self) -> CategoryV {
        CategoryV {
            id: self.id@,
            name: self.name@,
            description: self.description@,
            patterns: self.patterns.deep_view(),
        }
    }
}

impl DeepView for ExclusionCategory {
    type V = CategoryV;

    open spec fn deep_view(&self) -> CategoryV {
        self.view()
    }
}

/// The catalog: category order defines pattern precedence.
pub open spec fn spec_catalog() -> Seq<CategoryV> {
    seq![
        (CategoryV {
            id: "vcs"@,
            name: "Version Control"@,
            description: "Version control metadata"@,
            patterns: seq![".git"@, ".svn"@, ".hg"@],
        }),
        (CategoryV {
            id: "go"@,
            name: "Go Specific"@,
            description: "Go build and test artifacts"@,
            patterns: seq!["go.sum"@, "*.test"@, "vendor/*"@],
        }),
        (CategoryV {
            id: "python"@,
            name: "Python"@,
            description: "Python bytecode and caches"@,
            patterns: seq!["*.pyc"@, "*.pyo"@, "__pycache__"@],
        }),
        (CategoryV {
            id: "logs"@,
            name: "Logs & Temporary"@,
            description: "Log files and temporary files"@,
            patterns: seq!["*.log"@, "*.tmp"@, "*.swp"@],
        }),
        (CategoryV {
            id: "build"@,
            name: "Build Artifacts"@,
            description: "Compiled output and build directories"@,
            patterns: seq!["build/*"@, "dist/*"@, "target/*"@, "*.o"@],
        }),
        (CategoryV {
            id: "deps"@,
            name: "Dependencies"@,
            description: "Vendored third-party dependencies"@,
            patterns: seq!["node_modules"@],
        }),
    ]
}

fn make_patterns_3(a: &str, b: &str, c: &str) -> (r: Vec<String>)
    ensures
        r.deep_view() =~= seq![a@, b@, c@],
{
    let mut r: Vec<String> = Vec::new();
    r.push(String::from_str(a));
    r.push(String::from_str(b));
    r.push(String::from_str(c));
    r
}

fn make_category(id: &str, name: &str, description: &str, patterns: Vec<String>) -> (c:
    ExclusionCategory)
    ensures
        c@ == (CategoryV {
            id: id@,
            name: name@,
            description: description@,
            patterns: patterns.deep_view(),
        }),
{
    ExclusionCategory {
        id: String::from_str(id),
        name: String::from_str(name),
        description: String::from_str(description),
        patterns,
    }
}

/// All categories of the built-in catalog, in precedence order.
pub fn get_exclusion_categories() -> (r: Vec<ExclusionCategory>)
    ensures
        r.deep_view() =~~= spec_catalog(),
{
    let mut r: Vec<ExclusionCategory> = Vec::new();
    r.push(
        make_category(
            "vcs",
            "Version Control",
            "Version control metadata",
            make_patterns_3(".git", ".svn", ".hg"),
        ),
    );
    r.push(
        make_category(
            "go",
            "Go Specific",
            "Go build and test artifacts",
            make_patterns_3("go.sum", "*.test", "vendor/*"),
        ),
    );
    r.push(
        make_category(
            "python",
            "Python",
            "Python bytecode and caches",
            make_patterns_3("*.pyc", "*.pyo", "__pycache__"),
        ),
    );
    r.push(
        make_category(
            "logs",
            "Logs & Temporary",
            "Log files and temporary files",
            make_patterns_3("*.log", "*.tmp", "*.swp"),
        ),
    );
    let mut build_patterns = make_patterns_3("build/*", "dist/*", "target/*");
    let ghost bp0 = build_patterns.deep_view();
    build_patterns.push(String::from_str("*.o"));
    proof {
        assert(build_patterns.deep_view() =~= bp0.push("*.o"@));
        assert(build_patterns.deep_view() =~= seq!["build/*"@, "dist/*"@, "target/*"@, "*.o"@]);
    }
    r.push(
        make_category("build", "Build Artifacts", "Compiled output and build directories",
        build_patterns),
    );
    let mut deps_patterns: Vec<String> = Vec::new();
    deps_patterns.push(String::from_str("node_modules"));
    proof {
        assert(deps_patterns.deep_view() =~= seq!["node_modules"@]);
    }
    r.push(
        make_category("deps", "Dependencies", "Vendored third-party dependencies", deps_patterns),
    );
    r
}

/// Whether a sequence of strings holds `x`.
pub fn contains_string(v: &[String], x: &str) -> (r: bool)
    ensures
        r == v.deep_view().contains(x@),
{
    let mut i: usize = 0;
    loop
        invariant
            i <= v@.len(),
            forall|j: int| 0 <= j < i ==> v.deep_view()[j] != x@,
        decreases v@.len() - i,
    {
        if i >= v.len() {
            return false;
        }
        if str_eq(v[i].as_str(), x) {
            proof {
                assert(v.deep_view()[i as int] == x@);
            }
            return true;
        }
        i = i + 1;
    }
}

/// The patterns contributed by `cats[i..]`, skipping categories whose id is
/// listed in `disabled`.
pub open spec fn spec_patterns_from(cats: Seq<CategoryV>, disabled: Seq<Seq<char>>, i: int) -> Seq<
    Seq<char>,
>
    decreases cats.len() - i,
{
    if i < 0 || i >= cats.len() {
        Seq::empty()
    } else if disabled.contains(cats[i].id) {
        spec_patterns_from(cats, disabled, i + 1)
    } else {
        cats[i].patterns + spec_patterns_from(cats, disabled, i + 1)
    }
}

/// The flattened pattern list of all enabled categories, in catalog order.
pub open spec fn spec_filtered_patterns(disabled: Seq<Seq<char>>) -> Seq<Seq<char>> {
    spec_patterns_from(spec_catalog(), disabled, 0)
}

/// The patterns of every category whose id is not in `disabled_category_ids`,
/// in catalog order.
pub fn get_filtered_patterns(disabled_category_ids: &[String]) -> (r: Vec<String>)
    ensures
        r.deep_view() == spec_filtered_patterns(disabled_category_ids.deep_view()),
{
    let cats = get_exclusion_categories();
    let ghost catsv = spec_catalog();
    let ghost disabledv = disabled_category_ids.deep_view();
    let mut r: Vec<String> = Vec::new();
    let mut i: usize = 0;
    loop
        invariant
            cats.deep_view() =~~= catsv,
            catsv == spec_catalog(),
            disabledv == disabled_category_ids.deep_view(),
            i <= cats@.len(),
            spec_patterns_from(catsv, disabledv, 0) =~= r.deep_view() + spec_patterns_from(
                catsv,
                disabledv,
                i as int,
            ),
        decreases cats@.len() - i,
    {
        if i >= cats.len() {
            proof {
                assert(r.deep_view() =~= r.deep_view() + spec_patterns_from(
                    catsv,
                    disabledv,
                    i as int,
                ));
            }
            return r;
        }
        if !contains_string(disabled_category_ids, cats[i].id.as_str()) {
            let ghost r0 = r.deep_view();
            let mut j: usize = 0;
            while j < cats[i].patterns.len()
                invariant
                    cats.deep_view() =~~= catsv,
                    i < cats@.len(),
                    j <= cats@[i as int].patterns@.len(),
                    r.deep_view() =~= r0 + catsv[i as int].patterns.take(j as int),
                decreases cats@[i as int].patterns@.len() - j,
            {
                let ghost r1 = r.deep_view();
                r.push(cats[i].patterns[j].clone());
                proof {
                    assert(cats.deep_view()[i as int] == catsv[i as int]);
                    assert(cats@[i as int].patterns.deep_view()[j as int] == catsv[i
                        as int].patterns[j as int]);
                    assert(r.deep_view() =~= r1.push(catsv[i as int].patterns[j as int]));
                    assert(r.deep_view() =~= r0 + catsv[i as int].patterns.take(j + 1 as int));
                }
                j = j + 1;
            }
            proof {
                assert(cats.deep_view()[i as int] == catsv[i as int]);
                assert(cats@[i as int].patterns.deep_view().len() == catsv[i as int].patterns.len());
                assert(catsv[i as int].patterns.take(cats@[i as int].patterns@.len() as int)
                    =~= catsv[i as int].patterns);
                assert(r.deep_view() =~= r0 + catsv[i as int].patterns);
                assert((r0 + catsv[i as int].patterns) + spec_patterns_from(
                    catsv,
                    disabledv,
                    i + 1 as int,
                ) =~= r0 + (catsv[i as int].patterns + spec_patterns_from(
                    catsv,
                    disabledv,
                    i + 1 as int,
                )));
            }
        }
        i = i + 1;
    }
}

/// Every pattern of every category, in catalog order.
pub fn get_all_patterns() -> (r: Vec<String>)
    ensures
        r.deep_view() == spec_filtered_patterns(Seq::empty()),
{
    let none: Vec<String> = Vec::new();
    let r = get_filtered_patterns(none.as_slice());
    proof {
        assert(none.deep_view() =~= Seq::<Seq<char>>::empty());
    }
    r
}

/// The display name of the first category from `cats[i..]` whose pattern list
/// holds `p`, or `Custom` when none does.
pub open spec fn spec_category_from(cats: Seq<CategoryV>, p: Seq<char>, i: int) -> Seq<char>
    decreases cats.len() - i,
{
    if i < 0 || i >= cats.len() {
        "Custom"@
    } else if cats[i].patterns.contains(p) {
        cats[i].name
    } else {
        spec_category_from(cats, p, i + 1)
    }
}

/// The name of the first catalog category holding the pattern, `Custom` if none.
pub open spec fn spec_category_for_pattern(p: Seq<char>) -> Seq<char> {
    spec_category_from(spec_catalog(), p, 0)
}

fn patterns_contain(patterns: &Vec<String>, p: &str) -> (r: bool)
    ensures
        r == patterns.deep_view().contains(p@),
{
    contains_string(patterns.as_slice(), p)
}

/// The display name of the first category whose patterns hold `pattern`,
/// or `Custom` when no category lists it.
pub fn get_category_for_pattern(pattern: &str) -> (r: String)
    ensures
        r@ == spec_category_for_pattern(pattern@),
{
    let cats = get_exclusion_categories();
    let ghost catsv = spec_catalog();
    let mut i: usize = 0;
    loop
        invariant
            cats.deep_view() =~~= catsv,
            catsv == spec_catalog(),
            i <= cats@.len(),
            spec_category_from(catsv, pattern@, 0) == spec_category_from(catsv, pattern@, i as int),
        decreases cats@.len() - i,
    {
        if i >= cats.len() {
            return String::from_str("Custom");
        }
        if patterns_contain(&cats[i].patterns, pattern) {
            return cats[i].name.clone();
        }
        i = i + 1;
    }
}

/// Whether `id` is the id of some catalog category.
pub open spec fn spec_is_category_id(id: Seq<char>) -> bool {
    exists|i: int| 0 <= i < spec_catalog().len() && spec_catalog()[i].id == id
}

fn is_category_id(id: &str) -> (r: bool)
    ensures
        r == spec_is_category_id(id@),
{
    let cats = get_exclusion_categories();
    let ghost catsv = spec_catalog();
    let mut i: usize = 0;
    loop
        invariant
            cats.deep_view() =~~= catsv,
            catsv == spec_catalog(),
            i <= cats@.len(),
            forall|j: int| 0 <= j < i ==> catsv[j].id != id@,
        decreases cats@.len() - i,
    {
        if i >= cats.len() {
            return false;
        }
        if str_eq(cats[i].id.as_str(), id) {
            proof {
                assert(catsv[i as int].id == id@);
            }
            return true;
        }
        i = i + 1;
    }
}

/// The ids from `ids[i..]` that name no catalog category, in order.
pub open spec fn spec_invalid_ids_from(ids: Seq<Seq<char>>, i: int) -> Seq<Seq<char>>
    decreases ids.len() - i,
{
    if i < 0 || i >= ids.len() {
        Seq::empty()
    } else if spec_is_category_id(ids[i]) {
        spec_invalid_ids_from(ids, i + 1)
    } else {
        seq![ids[i]] + spec_invalid_ids_from(ids, i + 1)
    }
}

/// The subsequence of `ids` that names no catalog category.
pub open spec fn spec_invalid_ids(ids: Seq<Seq<char>>) -> Seq<Seq<char>> {
    spec_invalid_ids_from(ids, 0)
}

/// Returns the given ids that are not valid category ids, keeping their order;
/// empty exactly when every id names a category.
pub fn validate_category_ids(ids: &[String]) -> (r: Vec<String>)
    ensures
        r.deep_view() == spec_invalid_ids(ids.deep_view()),
{
    let ghost idsv = ids.deep_view();
    let mut r: Vec<String> = Vec::new();
    let mut i: usize = 0;
    loop
        invariant
            idsv == ids.deep_view(),
            i <= ids@.len(),
            spec_invalid_ids_from(idsv, 0) =~= r.deep_view() + spec_invalid_ids_from(
                idsv,
                i as int,
            ),
        decreases ids@.len() - i,
    {
        if i >= ids.len() {
            proof {
                assert(r.deep_view() =~= r.deep_view() + spec_invalid_ids_from(idsv, i as int));
            }
            return r;
        }
        if !is_category_id(ids[i].as_str()) {
            let ghost r1 = r.deep_view();
            r.push(ids[i].clone());
            proof {
                assert(ids.deep_view()[i as int] == idsv[i as int]);
                assert(r.deep_view() =~= r1.push(idsv[i as int]));
                assert(r1.push(idsv[i as int]) + spec_invalid_ids_from(idsv, i + 1 as int) =~= r1
                    + (seq![idsv[i as int]] + spec_invalid_ids_from(idsv, i + 1 as int)));
            }
        }
        i = i + 1;
    }
}

} // verus!
