//! The scanner: runs the exclusion engine and the classifier over a snapshot
//! of a directory tree and renders the content dump.
//!
//! A snapshot is the entry list a depth-first walk produced, in walk order;
//! each entry carries its path relative to the scan root, the final component
//! of its absolute path, what kind of entry it is, and (for files) its bytes.
//! A root that is itself a regular file is the degenerate snapshot: the file's
//! bytes alone, displayed as `.`.

use vstd::prelude::*;
use vstd::string::StrSliceExecFns;
use vstd::string::StringExecFns;
use crate::classify::is_text_content;
use crate::classify::spec_is_text;
use crate::emit::emit_file_block;
use crate::emit::spec_file_block;
use crate::emit::spec_sep;
use crate::filter::Filter;
use crate::filter::ReasonV;
use crate::filter::spec_entry_reason;
use crate::tree::FileInfo;
use crate::tree::FileInfoV;
use crate::tree::print_dry_run_results;
use crate::tree::spec_dry_run_report;

verus! {

/// One visited entry of a directory walk.
pub struct ScanEntry {
    /// The path relative to the scan root; empty for the root itself.
    pub rel_path: String,
    /// The final component of the entry's absolute path.
    pub name: String,
    /// Whether the entry is a directory.
    pub is_dir: bool,
    /// Whether the entry is a regular file.
    pub is_file: bool,
    /// The file's bytes; empty for anything but a regular file.
    pub content: Vec<u8>,
}

/// The mathematical value of a visited entry.
#[verifier::ext_equal]
pub ghost struct EntryV {
    pub rel_path: Seq<char>,
    pub name: Seq<char>,
    pub is_dir: bool,
    pub is_file: bool,
    pub content: Seq<u8>,
}

impl View for ScanEntry {
    type V = EntryV;

    open spec fn view(&self) -> EntryV {
        EntryV {
            rel_path: self.rel_path@,
            name: self.name@,
            is_dir: self.is_dir,
            is_file: self.is_file,
            content: self.content@,
        }
    }
}

impl DeepView for ScanEntry {
    type V = EntryV;

    open spec fn deep_view(&self) -> EntryV {
        self.view()
    }
}

/// What a scan runs over: a directory snapshot in walk order, or the content
/// of a root that is itself a regular file.
pub enum ScanRoot {
    File { content: Vec<u8> },
    Dir { entries: Vec<ScanEntry> },
}

/// The mathematical value of a scan root.
#[verifier::ext_equal]
pub ghost enum RootV {
    File { content: Seq<u8> },
    Dir { entries: Seq<EntryV> },
}

impl View for ScanRoot {
    type V = RootV;

    open spec fn view(&self) -> RootV {
        match self {
            ScanRoot::File { content } => RootV::File { content: content@ },
            ScanRoot::Dir { entries } => RootV::Dir { entries: entries.deep_view() },
        }
    }
}

/// What a content-mode scan produced: the rendered output, and the display
/// path of the file whose lines could not all be read as text, when one
/// aborted the run.
pub struct ScanOutcome {
    pub output: String,
    pub failed: Option<String>,
}

/// The display path of an entry: its relative path, or `.` for the root.
pub open spec fn spec_display(rel_path: Seq<char>) -> Seq<char> {
    if rel_path.len() == 0 {
        "."@
    } else {
        rel_path
    }
}

/// The content dump of the entries `entries[i..]`: excluded entries are
/// skipped whole, included files contribute their block, and the run either
/// ends with a trailing separator line or stops at the first file whose lines
/// could not be read.
pub open spec fn spec_scan_from(f: Seq<ReasonV>, entries: Seq<EntryV>, i: int) -> (Seq<char>,
    Option<Seq<char>>)
    decreases entries.len() - i,
{
    if i < 0 || i >= entries.len() {
        (spec_sep() + "\n"@, None)
    } else {
        let e = entries[i];
        if spec_entry_reason(f, e.name, e.rel_path) is Some {
            spec_scan_from(f, entries, i + 1)
        } else if e.is_file {
            let blk = spec_file_block(spec_display(e.rel_path), e.content);
            if blk.1 {
                let rest = spec_scan_from(f, entries, i + 1);
                (blk.0 + rest.0, rest.1)
            } else {
                (blk.0, Some(spec_display(e.rel_path)))
            }
        } else {
            spec_scan_from(f, entries, i + 1)
        }
    }
}

/// The content dump of a whole scan: a single-file root contributes its block
/// under the display path `.` without consulting the filter; a directory root
/// contributes the dump of its entries.
pub open spec fn spec_scan(f: Seq<ReasonV>, root: RootV) -> (Seq<char>, Option<Seq<char>>) {
    match root {
        RootV::File { content } => {
            let blk = spec_file_block("."@, content);
            if blk.1 {
                (blk.0 + spec_sep() + "\n"@, None)
            } else {
                (blk.0, Some("."@))
            }
        },
        RootV::Dir { entries } => spec_scan_from(f, entries, 0),
    }
}

/// A scanner: the compiled filter it consults for every visited entry.
pub struct Scanner {
    filter: Filter,
}

impl View for Scanner {
    type V = Seq<ReasonV>;

    closed spec fn view(&self) -> Seq<ReasonV> {
        self.filter@
    }
}

impl Scanner {
    /// A scanner over the given compiled filter.
    pub fn new(filter: Filter) -> (r: Scanner)
        ensures
            r@ == filter@,
    {
        Scanner { filter }
    }

    /// Renders the content dump of a snapshot: every included text file as a
    /// delimited block in walk order, closed by a trailing separator, or
    /// aborted at the first included file whose lines could not be read
    /// (`failed` then names it and the prefix already rendered is kept).
    pub fn scan(&self, root: &ScanRoot) -> (r: ScanOutcome)
        ensures
            (r.output@, r.failed.deep_view()) == spec_scan(self@, root@),
    {
        match root {
            ScanRoot::File { content } => {
                let (blk, ok) = emit_file_block(".", content.as_slice());
                if ok {
                    let mut out = blk;
                    out.append("--------------------");
                    out.append("\n");
                    ScanOutcome { output: out, failed: None }
                } else {
                    ScanOutcome { output: blk, failed: Some(String::from_str(".")) }
                }
            },
            ScanRoot::Dir { entries } => {
                let ghost f = self@;
                let ghost ev = entries.deep_view();
                let mut out = String::new();
                let mut i: usize = 0;
                proof {
                    assert(spec_scan_from(f, ev, 0).0 =~= out@ + spec_scan_from(f, ev, 0).0);
                }
                while i < entries.len()
                    invariant
                        f == self@,
                        ev == entries.deep_view(),
                        root@ == (RootV::Dir { entries: ev }),
                        i <= entries@.len(),
                        spec_scan_from(f, ev, 0).0 =~= out@ + spec_scan_from(f, ev, i as int).0,
                        spec_scan_from(f, ev, 0).1 == spec_scan_from(f, ev, i as int).1,
                    decreases entries@.len() - i,
                {
                    let e = &entries[i];
                    proof {
                        assert(entries.deep_view()[i as int] == e.deep_view());
                    }
                    let excluded = self.filter.reason_for(
                        e.name.as_str(),
                        e.rel_path.as_str(),
                    ).is_some();
                    if !excluded && e.is_file {
                        let display = if e.rel_path.unicode_len() == 0 {
                            "."
                        } else {
                            e.rel_path.as_str()
                        };
                        proof {
                            assert(display@ == spec_display(ev[i as int].rel_path));
                        }
                        let (blk, ok) = emit_file_block(display, e.content.as_slice());
                        out.append(blk.as_str());
                        if !ok {
                            let failed = Some(String::from_str(display));
                            proof {
                                assert(spec_scan_from(f, ev, i as int).0 == blk@);
                                assert(spec_scan_from(f, ev, i as int).1 == Some(display@));
                                assert(out@ =~= spec_scan_from(f, ev, 0).0);
                                assert(failed.deep_view() == spec_scan_from(f, ev, 0).1);
                                assert((out@, failed.deep_view()) == spec_scan_from(f, ev, 0));
                            }
                            return ScanOutcome { output: out, failed };
                        }
                        proof {
                            assert(spec_scan_from(f, ev, 0).0 =~= out@ + spec_scan_from(
                                f,
                                ev,
                                i + 1,
                            ).0);
                        }
                    }
                    i = i + 1;
                }
                out.append("--------------------");
                out.append("\n");
                proof {
                    assert(spec_scan_from(f, ev, entries@.len() as int).0 == spec_sep() + "\n"@);
                    assert(out@ =~= spec_scan_from(f, ev, 0).0);
                }
                ScanOutcome { output: out, failed: None }
            },
        }
    }

    /// Records one visited entry for the preview report: an excluded entry
    /// with its reason and no classification, an included one with its
    /// text-or-binary classification (files only).
    pub fn dry_run(&self, directory: &str, entries: &Vec<ScanEntry>) -> (r: String)
        ensures
            r@ == spec_dry_run(self@, entries.deep_view(), directory@),
    {
        let ghost f = self@;
        let ghost ev = entries.deep_view();
        let mut included: Vec<FileInfo> = Vec::new();
        let mut excluded: Vec<FileInfo> = Vec::new();
        let mut i: usize = 0;
        proof {
            assert(spec_partition_from(f, ev, 0).0 =~= included.deep_view() + spec_partition_from(
                f,
                ev,
                0,
            ).0);
            assert(spec_partition_from(f, ev, 0).1 =~= excluded.deep_view() + spec_partition_from(
                f,
                ev,
                0,
            ).1);
        }
        while i < entries.len()
            invariant
                f == self@,
                ev == entries.deep_view(),
                i <= entries@.len(),
                spec_partition_from(f, ev, 0).0 =~= included.deep_view() + spec_partition_from(
                    f,
                    ev,
                    i as int,
                ).0,
                spec_partition_from(f, ev, 0).1 =~= excluded.deep_view() + spec_partition_from(
                    f,
                    ev,
                    i as int,
                ).1,
            decreases entries@.len() - i,
        {
            let e = &entries[i];
            proof {
                assert(entries.deep_view()[i as int] == e.deep_view());
            }
            match self.filter.reason_for(e.name.as_str(), e.rel_path.as_str()) {
                Option::Some(re) => {
                    let ghost x0 = excluded.deep_view();
                    excluded.push(
                        FileInfo {
                            rel_path: e.rel_path.clone(),
                            is_dir: e.is_dir,
                            is_text: false,
                            excluded: true,
                            reason: Some(re),
                        },
                    );
                    proof {
                        assert(excluded.deep_view() =~= x0.push(
                            spec_excluded_info(
                                ev[i as int],
                                spec_entry_reason(f, ev[i as int].name, ev[i as int].rel_path)
                                    ->Some_0,
                            ),
                        ));
                        assert(x0.push(
                            spec_excluded_info(
                                ev[i as int],
                                spec_entry_reason(f, ev[i as int].name, ev[i as int].rel_path)
                                    ->Some_0,
                            ),
                        ) + spec_partition_from(f, ev, i + 1).1 =~= x0 + spec_partition_from(
                            f,
                            ev,
                            i as int,
                        ).1);
                    }
                },
                Option::None => {
                    let is_text = if e.is_file {
                        is_text_content(e.content.as_slice())
                    } else {
                        false
                    };
                    let ghost n0 = included.deep_view();
                    included.push(
                        FileInfo {
                            rel_path: e.rel_path.clone(),
                            is_dir: e.is_dir,
                            is_text,
                            excluded: false,
                            reason: None,
                        },
                    );
                    proof {
                        assert(included.deep_view() =~= n0.push(spec_included_info(ev[i as int])));
                        assert(n0.push(spec_included_info(ev[i as int])) + spec_partition_from(
                            f,
                            ev,
                            i + 1,
                        ).0 =~= n0 + spec_partition_from(f, ev, i as int).0);
                    }
                },
            }
            i = i + 1;
        }
        proof {
            assert(spec_partition_from(f, ev, 0).0 =~= included.deep_view());
            assert(spec_partition_from(f, ev, 0).1 =~= excluded.deep_view());
        }
        print_dry_run_results(included, excluded, directory)
    }
}

/// The preview record of an excluded entry.
pub open spec fn spec_excluded_info(e: EntryV, re: ReasonV) -> FileInfoV {
    FileInfoV {
        rel_path: e.rel_path,
        is_dir: e.is_dir,
        is_text: false,
        excluded: true,
        reason: Some(re),
    }
}

/// The preview record of an included entry: classified as text only when it
/// is a regular file whose content classifies as text.
pub open spec fn spec_included_info(e: EntryV) -> FileInfoV {
    FileInfoV {
        rel_path: e.rel_path,
        is_dir: e.is_dir,
        is_text: e.is_file && spec_is_text(e.content),
        excluded: false,
        reason: None,
    }
}

/// The recorded entry lists of a preview over `entries[i..]`: the included
/// records and the excluded records, each in walk order.
pub open spec fn spec_partition_from(f: Seq<ReasonV>, entries: Seq<EntryV>, i: int) -> (Seq<
    FileInfoV,
>, Seq<FileInfoV>)
    decreases entries.len() - i,
{
    if i < 0 || i >= entries.len() {
        (Seq::empty(), Seq::empty())
    } else {
        let e = entries[i];
        let rest = spec_partition_from(f, entries, i + 1);
        match spec_entry_reason(f, e.name, e.rel_path) {
            Some(re) => (rest.0, seq![spec_excluded_info(e, re)] + rest.1),
            None => (seq![spec_included_info(e)] + rest.0, rest.1),
        }
    }
}

/// The whole preview report of a scan over a snapshot.
pub open spec fn spec_dry_run(f: Seq<ReasonV>, entries: Seq<EntryV>, dir: Seq<char>) -> Seq<
    char,
> {
    spec_dry_run_report(
        spec_partition_from(f, entries, 0).0,
        spec_partition_from(f, entries, 0).1,
        dir,
    )
}

} // verus!
