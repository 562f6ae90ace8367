//! Renders the catalog listings: the full category listing with usage notes,
//! the plain pattern listing, and the patterns of one category.

use vstd::prelude::*;
use vstd::string::StringExecFns;
use crate::catalog::CategoryV;
use crate::catalog::get_all_patterns;
use crate::catalog::get_exclusion_categories;
use crate::catalog::spec_catalog;
use crate::catalog::spec_filtered_patterns;
use crate::strkit::decimal;
use crate::strkit::has_wildcard;
use crate::strkit::sort_strings;
use crate::strkit::spec_decimal;
use crate::strkit::spec_has_wildcard;
use crate::strkit::spec_sort_strings;
use crate::strkit::str_eq;

verus! {

/// Each string of the list on a line of its own.
pub open spec fn spec_lines(s: Seq<Seq<char>>) -> Seq<char>
    decreases s.len(),
{
    if s.len() == 0 {
        Seq::empty()
    } else {
        s[0] + "\n"@ + spec_lines(s.drop_first())
    }
}

/// Each string of the list on a line of its own, indented by two spaces.
pub open spec fn spec_indented_lines(s: Seq<Seq<char>>) -> Seq<char>
    decreases s.len(),
{
    if s.len() == 0 {
        Seq::empty()
    } else {
        "  "@ + s[0] + "\n"@ + spec_indented_lines(s.drop_first())
    }
}

fn append_lines(out: &mut String, v: &Vec<String>, indent: bool)
    ensures
        !indent ==> final(out)@ == old(out)@ + spec_lines(v.deep_view()),
        indent ==> final(out)@ == old(out)@ + spec_indented_lines(v.deep_view()),
{
    let ghost vv = v.deep_view();
    let ghost base = out@;
    let mut i: usize = 0;
    proof {
        assert(vv.skip(0) =~= vv);
    }
    while i < v.len()
        invariant
            vv == v.deep_view(),
            i <= v@.len(),
            !indent ==> base + spec_lines(vv) =~= out@ + spec_lines(vv.skip(i as int)),
            indent ==> base + spec_indented_lines(vv) =~= out@ + spec_indented_lines(
                vv.skip(i as int),
            ),
        decreases v@.len() - i,
    {
        proof {
            assert(vv.skip(i as int)[0] == vv[i as int]);
            assert(v.deep_view()[i as int] == vv[i as int]);
            assert(vv.skip(i as int).drop_first() =~= vv.skip(i + 1));
        }
        if indent {
            out.append("  ");
        }
        out.append(v[i].as_str());
        out.append("\n");
        i = i + 1;
    }
    proof {
        assert(vv.skip(v@.len() as int).len() == 0);
    }
}

fn copy_strings(v: &Vec<String>) -> (r: Vec<String>)
    ensures
        r.deep_view() == v.deep_view(),
{
    let mut r: Vec<String> = Vec::new();
    let mut i: usize = 0;
    while i < v.len()
        invariant
            i <= v@.len(),
            r.deep_view() =~= v.deep_view().take(i as int),
        decreases v@.len() - i,
    {
        let ghost r0 = r.deep_view();
        r.push(v[i].clone());
        proof {
            assert(r.deep_view() =~= r0.push(v.deep_view()[i as int]));
            assert(r.deep_view() =~= v.deep_view().take(i + 1));
        }
        i = i + 1;
    }
    proof {
        assert(v.deep_view().take(v@.len() as int) =~= v.deep_view());
    }
    r
}

/// The patterns of the first category from `cats[i..]` with the given id.
pub open spec fn spec_category_patterns_from(cats: Seq<CategoryV>, id: Seq<char>, i: int)
    -> Option<Seq<Seq<char>>>
    decreases cats.len() - i,
{
    if i < 0 || i >= cats.len() {
        None
    } else if cats[i].id == id {
        Some(cats[i].patterns)
    } else {
        spec_category_patterns_from(cats, id, i + 1)
    }
}

/// The listing for one category id: its patterns sorted, one per line, or a
/// not-found note.
pub open spec fn spec_category_listing(id: Seq<char>) -> Seq<char> {
    match spec_category_patterns_from(spec_catalog(), id, 0) {
        Some(pats) => spec_lines(spec_sort_strings(pats)),
        None => "Category "@ + id + " not found"@ + "\n"@,
    }
}

/// Renders the sorted patterns of the category with the given id, or a note
/// that no category has that id.
pub fn print_category_exclusions(category_id: &str) -> (r: String)
    ensures
        r@ == spec_category_listing(category_id@),
{
    let mut cats = get_exclusion_categories();
    let ghost catsv = spec_catalog();
    let mut i: usize = 0;
    while i < cats.len()
        invariant
            cats.deep_view() =~~= catsv,
            catsv == spec_catalog(),
            i <= cats@.len(),
            spec_category_patterns_from(catsv, category_id@, 0) == spec_category_patterns_from(
                catsv,
                category_id@,
                i as int,
            ),
        decreases cats@.len() - i,
    {
        if str_eq(cats[i].id.as_str(), category_id) {
            proof {
                assert(cats.deep_view()[i as int] == catsv[i as int]);
            }
            let cat = cats.remove(i);
            proof {
                assert(cat@ == catsv[i as int]);
                assert(cat.patterns.deep_view() == catsv[i as int].patterns);
            }
            let sorted = sort_strings(cat.patterns);
            let mut out = String::new();
            append_lines(&mut out, &sorted, false);
            return out;
        }
        proof {
            assert(cats.deep_view()[i as int] == catsv[i as int]);
        }
        i = i + 1;
    }
    let mut out = String::new();
    out.append("Category ");
    out.append(category_id);
    out.append(" not found");
    out.append("\n");
    out
}

/// The patterns split into those with a glob metacharacter and those
/// without, keeping order within each part.
pub open spec fn spec_partition_wild(pats: Seq<Seq<char>>, i: int) -> (Seq<Seq<char>>, Seq<
    Seq<char>,
>)
    decreases pats.len() - i,
{
    if i < 0 || i >= pats.len() {
        (Seq::empty(), Seq::empty())
    } else {
        let rest = spec_partition_wild(pats, i + 1);
        if spec_has_wildcard(pats[i]) {
            (seq![pats[i]] + rest.0, rest.1)
        } else {
            (rest.0, seq![pats[i]] + rest.1)
        }
    }
}

/// The plain pattern listing: wildcard patterns sorted, then literal
/// patterns sorted, one per line.
pub open spec fn spec_patterns_listing() -> Seq<char> {
    let all = spec_filtered_patterns(Seq::empty());
    let parts = spec_partition_wild(all, 0);
    spec_lines(spec_sort_strings(parts.0)) + spec_lines(spec_sort_strings(parts.1))
}

/// Renders every pattern on a line of its own: wildcard patterns first,
/// then literal patterns, each group sorted.
pub fn print_patterns_only() -> (r: String)
    ensures
        r@ == spec_patterns_listing(),
{
    let all = get_all_patterns();
    let ghost allv = spec_filtered_patterns(Seq::empty());
    let mut wildcards: Vec<String> = Vec::new();
    let mut literals: Vec<String> = Vec::new();
    let mut i: usize = 0;
    proof {
        assert(spec_partition_wild(allv, 0).0 =~= wildcards.deep_view() + spec_partition_wild(
            allv,
            0,
        ).0);
        assert(spec_partition_wild(allv, 0).1 =~= literals.deep_view() + spec_partition_wild(
            allv,
            0,
        ).1);
    }
    while i < all.len()
        invariant
            all.deep_view() == allv,
            i <= all@.len(),
            spec_partition_wild(allv, 0).0 =~= wildcards.deep_view() + spec_partition_wild(
                allv,
                i as int,
            ).0,
            spec_partition_wild(allv, 0).1 =~= literals.deep_view() + spec_partition_wild(
                allv,
                i as int,
            ).1,
        decreases all@.len() - i,
    {
        proof {
            assert(all.deep_view()[i as int] == allv[i as int]);
        }
        if has_wildcard(all[i].as_str()) {
            let ghost w0 = wildcards.deep_view();
            wildcards.push(all[i].clone());
            proof {
                assert(wildcards.deep_view() =~= w0.push(allv[i as int]));
                assert(w0.push(allv[i as int]) + spec_partition_wild(allv, i + 1).0 =~= w0
                    + spec_partition_wild(allv, i as int).0);
            }
        } else {
            let ghost l0 = literals.deep_view();
            literals.push(all[i].clone());
            proof {
                assert(literals.deep_view() =~= l0.push(allv[i as int]));
                assert(l0.push(allv[i as int]) + spec_partition_wild(allv, i + 1).1 =~= l0
                    + spec_partition_wild(allv, i as int).1);
            }
        }
        i = i + 1;
    }
    proof {
        assert(spec_partition_wild(allv, 0).0 =~= wildcards.deep_view());
        assert(spec_partition_wild(allv, 0).1 =~= literals.deep_view());
    }
    let ws = sort_strings(wildcards);
    let ls = sort_strings(literals);
    let mut out = String::new();
    append_lines(&mut out, &ws, false);
    append_lines(&mut out, &ls, false);
    out
}

/// The listing of the categories `cats[i..]`: a blank line between
/// categories, each with its id, name, description and sorted patterns.
pub open spec fn spec_categories_listing(cats: Seq<CategoryV>, i: int) -> Seq<char>
    decreases cats.len() - i,
{
    if i < 0 || i >= cats.len() {
        Seq::empty()
    } else {
        (if i > 0 {
            "\n"@
        } else {
            Seq::empty()
        }) + "ID: "@ + cats[i].id + " - "@ + cats[i].name + "\n"@ + "Description: "@
            + cats[i].description + "\n"@ + "Patterns:"@ + "\n"@ + spec_indented_lines(
            spec_sort_strings(cats[i].patterns),
        ) + spec_categories_listing(cats, i + 1)
    }
}

/// The full catalog listing: a header, every category with its sorted
/// patterns, the totals, and usage notes with examples.
pub open spec fn spec_exclusions_listing() -> Seq<char> {
    "Default Exclusions by Category"@ + "\n"@ + "=============================="@ + "\n"@
        + spec_categories_listing(spec_catalog(), 0) + "\n"@ + "Summary:"@ + "\n"@
        + "  Total categories: "@ + spec_decimal(spec_catalog().len() as nat) + "\n"@
        + "  Total patterns: "@ + spec_decimal(spec_filtered_patterns(Seq::empty()).len() as nat)
        + "\n"@ + "\n"@ + "Usage:"@ + "\n"@
        + "  --disable-category <id>     Disable a specific category"@ + "\n"@
        + "  --disable-category go,vcs   Disable multiple categories"@ + "\n"@ + "\n"@
        + "Examples:"@ + "\n"@
        + "  context-generator --disable-category go     # Include go.sum and Go test files"@
        + "\n"@ + "  context-generator --disable-category vcs    # Include .git directory contents"@
        + "\n"@ + "  context-generator --disable-category logs   # Include log files"@ + "\n"@
}

/// Renders the full catalog listing: every category with its description and
/// sorted patterns, the totals, and usage examples.
#[verifier::rlimit(60)]
pub fn print_exclusions() -> (r: String)
    ensures
        r@ == spec_exclusions_listing(),
{
    let mut out = String::new();
    out.append("Default Exclusions by Category");
    out.append("\n");
    out.append("==============================");
    out.append("\n");
    let cats = get_exclusion_categories();
    let ghost catsv = spec_catalog();
    let ghost base = out@;
    let mut i: usize = 0;
    proof {
        assert(base + spec_categories_listing(catsv, 0) =~= out@ + spec_categories_listing(
            catsv,
            0,
        ));
    }
    while i < cats.len()
        invariant
            cats.deep_view() =~~= catsv,
            catsv == spec_catalog(),
            i <= cats@.len(),
            base + spec_categories_listing(catsv, 0) =~= out@ + spec_categories_listing(
                catsv,
                i as int,
            ),
        decreases cats@.len() - i,
    {
        proof {
            assert(cats.deep_view()[i as int] == catsv[i as int]);
        }
        if i > 0 {
            out.append("\n");
        }
        out.append("ID: ");
        out.append(cats[i].id.as_str());
        out.append(" - ");
        out.append(cats[i].name.as_str());
        out.append("\n");
        out.append("Description: ");
        out.append(cats[i].description.as_str());
        out.append("\n");
        out.append("Patterns:");
        out.append("\n");
        let pats = copy_strings(&cats[i].patterns);
        proof {
            assert(pats.deep_view() == catsv[i as int].patterns);
        }
        let sorted = sort_strings(pats);
        append_lines(&mut out, &sorted, true);
        i = i + 1;
    }
    let ncats = cats.len();
    let all = get_all_patterns();
    let npats = all.len();
    out.append("\n");
    out.append("Summary:");
    out.append("\n");
    out.append("  Total categories: ");
    let d1 = decimal(ncats as u64);
    out.append(d1.as_str());
    out.append("\n");
    out.append("  Total patterns: ");
    let d2 = decimal(npats as u64);
    out.append(d2.as_str());
    out.append("\n");
    out.append("\n");
    out.append("Usage:");
    out.append("\n");
    out.append("  --disable-category <id>     Disable a specific category");
    out.append("\n");
    out.append("  --disable-category go,vcs   Disable multiple categories");
    out.append("\n");
    out.append("\n");
    out.append("Examples:");
    out.append("\n");
    out.append("  context-generator --disable-category go     # Include go.sum and Go test files");
    out.append("\n");
    out.append("  context-generator --disable-category vcs    # Include .git directory contents");
    out.append("\n");
    out.append("  context-generator --disable-category logs   # Include log files");
    out.append("\n");
    out
}

} // verus!
