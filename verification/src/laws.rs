//! Proved properties of the scanner and the exclusion engine that span
//! several functions.

use vstd::prelude::*;
use crate::filter::ReasonV;
use crate::filter::glob_match;
use crate::filter::spec_entry_reason;
use crate::filter::spec_match_from;
use crate::emit::spec_emit_lines;
use crate::emit::spec_header;
use crate::emit::spec_sep;
use crate::emit::spec_split_lines;
use crate::classify::spec_is_text;
use crate::scanner::EntryV;
use crate::scanner::RootV;
use crate::scanner::spec_included_info;
use crate::scanner::spec_partition_from;
use crate::scanner::spec_scan;

verus! {

/// Content mode is idempotent: the dump is a function of the compiled filter
/// and the snapshot alone, so two runs over one unchanged tree produce
/// byte-identical output.
pub proof fn lemma_scan_deterministic(f1: Seq<ReasonV>, f2: Seq<ReasonV>, r1: RootV, r2: RootV)
    requires
        f1 == f2,
        r1 == r2,
    ensures
        spec_scan(f1, r1) == spec_scan(f2, r2),
{
}

proof fn lemma_match_from_first(entries: Seq<ReasonV>, name: Seq<char>, rel: Seq<char>, i: int, k: int)
    requires
        0 <= k <= i < entries.len(),
        glob_match(entries[i].pattern, name) || glob_match(entries[i].pattern, rel),
        forall|m: int| 0 <= m < i ==> !glob_match((#[trigger] entries[m]).pattern, name)
            && !glob_match(entries[m].pattern, rel),
    ensures
        spec_match_from(entries, name, rel, k) == Some(entries[i]),
    decreases i - k,
{
    if k < i {
        lemma_match_from_first(entries, name, rel, i, k + 1);
    }
}

/// First match wins: when an entry's basename or relative path matches the
/// pattern at position `i` of the compiled list and also the pattern at a
/// later position `j`, and no pattern before `i` matches, the reported reason
/// is the entry at `i` — the pattern compiled first.
pub proof fn lemma_first_match_wins(
    entries: Seq<ReasonV>,
    name: Seq<char>,
    rel: Seq<char>,
    i: int,
    j: int,
)
    requires
        name.len() > 0,
        0 <= i < j < entries.len(),
        glob_match(entries[i].pattern, name) || glob_match(entries[i].pattern, rel),
        glob_match(entries[j].pattern, name) || glob_match(entries[j].pattern, rel),
        forall|m: int| 0 <= m < i ==> !glob_match((#[trigger] entries[m]).pattern, name)
            && !glob_match(entries[m].pattern, rel),
    ensures
        spec_entry_reason(entries, name, rel) == Some(entries[i]),
{
    lemma_match_from_first(entries, name, rel, i, 0);
}

proof fn lemma_partition_contains_from(f: Seq<ReasonV>, entries: Seq<EntryV>, i: int, k: int)
    requires
        0 <= k <= i < entries.len(),
        spec_entry_reason(f, entries[i].name, entries[i].rel_path) is None,
    ensures
        spec_partition_from(f, entries, k).0.contains(spec_included_info(entries[i])),
    decreases i - k,
{
    let rest = spec_partition_from(f, entries, k + 1);
    if k == i {
        let cur = spec_partition_from(f, entries, k).0;
        assert(cur[0] == spec_included_info(entries[i]));
    } else {
        lemma_partition_contains_from(f, entries, i, k + 1);
        let w = choose|w: int|
            0 <= w < rest.0.len() && rest.0[w] == spec_included_info(entries[i]);
        match spec_entry_reason(f, entries[k].name, entries[k].rel_path) {
            Some(re) => {
                assert(spec_partition_from(f, entries, k).0 == rest.0);
            },
            None => {
                let cur = spec_partition_from(f, entries, k).0;
                assert(cur[w + 1] == spec_included_info(entries[i]));
            },
        }
    }
}

/// Exclusion is decided per entry, not pruned per subtree: any visited entry
/// that no pattern matches — by basename or by its own relative path —
/// appears among the included records of the preview, whatever was decided
/// for the directories above it.
pub proof fn lemma_exclusion_independent_per_entry(
    f: Seq<ReasonV>,
    entries: Seq<EntryV>,
    i: int,
)
    requires
        0 <= i < entries.len(),
        spec_entry_reason(f, entries[i].name, entries[i].rel_path) is None,
    ensures
        spec_partition_from(f, entries, 0).0.contains(spec_included_info(entries[i])),
{
    lemma_partition_contains_from(f, entries, i, 0);
}

/// A root that is itself a text file yields exactly one block, under the
/// display path `.`: the dump is that file's header and lines followed by
/// the trailing separator, whatever the filter holds.
pub proof fn lemma_single_file_root(f: Seq<ReasonV>, content: Seq<u8>)
    requires
        spec_is_text(content),
        spec_emit_lines(spec_split_lines(content)).1,
    ensures
        spec_scan(f, RootV::File { content }) == (spec_header("."@) + spec_emit_lines(
            spec_split_lines(content),
        ).0 + spec_sep() + "\n"@, None::<Seq<char>>),
{
    let body = spec_emit_lines(spec_split_lines(content));
    assert((spec_header("."@) + body.0) + spec_sep() + "\n"@ =~= spec_header("."@) + body.0
        + spec_sep() + "\n"@);
}

} // verus!
