//! The content emitter: renders one included text file as a delimited,
//! line-indented block.
//!
//! A block is a separator line, a `file:` header naming the file by its
//! relative path (`.` when the file is the scan root itself), the separator
//! again, and the file's lines each prefixed with four spaces. Lines are the
//! byte runs between newline bytes, with a carriage return stripped before a
//! newline; a line that is not valid text aborts the block, leaving the
//! already-rendered prefix in place.

use vstd::prelude::*;
use vstd::string::StringExecFns;
use crate::classify::is_text_content;
use crate::classify::spec_is_text;

verus! {

/// The fixed-width delimiter written between file sections.
pub open spec fn spec_sep() -> Seq<char> {
    "--------------------"@
}

/// What `std::str::from_utf8` decodes a byte sequence to, when it is valid:
/// a function of the bytes alone.
pub uninterp spec fn utf8_decode(bytes: Seq<u8>) -> Option<Seq<char>>;

/// Relies on `std::str::from_utf8`: whether bytes are valid text and what
/// characters they decode to depends on the bytes alone.
#[verifier::external_body]
fn decode_utf8_line(bytes: &[u8]) -> (r: Option<String>)
    ensures
        r matches Some(s) ==> utf8_decode(bytes@) == Some(s@),
        r is None ==> utf8_decode(bytes@) is None,
{
    match std::str::from_utf8(bytes) {
        Ok(s) => Some(s.to_string()),
        Err(_) => None,
    }
}

/// A line with one trailing carriage return removed, as the line reader
/// strips a `\r\n` ending.
pub open spec fn spec_strip_cr(s: Seq<u8>) -> Seq<u8> {
    if s.len() > 0 && s.last() == 13 {
        s.drop_last()
    } else {
        s
    }
}

/// The lines of the remaining bytes `b`, where `cur` holds the bytes of the
/// current line read so far: a newline byte closes the current line (with a
/// carriage return before it stripped), and a non-empty current line at the
/// end stands as a final line of its own.
pub open spec fn spec_split_rest(b: Seq<u8>, cur: Seq<u8>) -> Seq<Seq<u8>>
    decreases b.len(),
{
    if b.len() == 0 {
        if cur.len() == 0 {
            Seq::empty()
        } else {
            seq![cur]
        }
    } else if b[0] == 10 {
        seq![spec_strip_cr(cur)] + spec_split_rest(b.drop_first(), Seq::empty())
    } else {
        spec_split_rest(b.drop_first(), cur.push(b[0]))
    }
}

/// The lines of a byte content: the runs between newline bytes, each with a
/// carriage return before the newline stripped; a final run without a newline
/// is a line as it stands, and a content ending in a newline has no empty
/// final line.
pub open spec fn spec_split_lines(b: Seq<u8>) -> Seq<Seq<u8>> {
    spec_split_rest(b, Seq::empty())
}

/// Splits file content into its lines.
pub fn split_lines(content: &[u8]) -> (r: Vec<Vec<u8>>)
    ensures
        r.deep_view() =~= spec_split_lines(content@),
{
    let n = content.len();
    let mut lines: Vec<Vec<u8>> = Vec::new();
    let mut cur: Vec<u8> = Vec::new();
    let mut i: usize = 0;
    proof {
        assert(content@.skip(0) =~= content@);
        assert(lines.deep_view() =~= Seq::<Seq<u8>>::empty());
    }
    while i < n
        invariant
            n == content@.len(),
            i <= n,
            spec_split_rest(content@, Seq::empty()) =~= lines.deep_view() + spec_split_rest(
                content@.skip(i as int),
                cur@,
            ),
        decreases n - i,
    {
        let ghost tail = content@.skip(i as int);
        let ghost c0 = cur@;
        let b = content[i];
        proof {
            assert(tail[0] == b);
            assert(tail.drop_first() =~= content@.skip(i + 1));
        }
        if b == 10 {
            let ghost l0 = lines.deep_view();
            let line = if cur.len() > 0 && cur[cur.len() - 1] == 13 {
                let mut c = cur;
                c.pop();
                cur = Vec::new();
                c
            } else {
                let c = cur;
                cur = Vec::new();
                c
            };
            proof {
                assert(line@ =~= spec_strip_cr(c0));
            }
            lines.push(line);
            proof {
                assert(lines.deep_view() =~~= l0.push(spec_strip_cr(c0)));
                assert(l0 + spec_split_rest(tail, c0) =~= lines.deep_view() + spec_split_rest(
                    tail.drop_first(),
                    Seq::empty(),
                ));
            }
        } else {
            cur.push(b);
        }
        i = i + 1;
    }
    proof {
        assert(content@.skip(n as int).len() == 0);
    }
    if cur.len() > 0 {
        let ghost l0 = lines.deep_view();
        let last = cur;
        lines.push(last);
        proof {
            assert(lines.deep_view() =~~= l0.push(last@));
        }
    }
    lines
}

/// The block header for a file: the separator, the `file:` line with the
/// display path, and the separator again.
pub open spec fn spec_header(display: Seq<char>) -> Seq<char> {
    spec_sep() + "\n"@ + "file: "@ + display + "\n"@ + spec_sep() + "\n"@
}

/// The rendered lines of a block, each indented by four spaces, paired with
/// whether every line decoded as text; rendering stops at the first line that
/// does not.
pub open spec fn spec_emit_lines(lines: Seq<Seq<u8>>) -> (Seq<char>, bool)
    decreases lines.len(),
{
    if lines.len() == 0 {
        (Seq::empty(), true)
    } else {
        match utf8_decode(lines[0]) {
            None => (Seq::empty(), false),
            Some(cs) => {
                let rest = spec_emit_lines(lines.drop_first());
                ("    "@ + cs + "\n"@ + rest.0, rest.1)
            },
        }
    }
}

/// The whole block a file contributes to the content dump, paired with
/// whether it was rendered completely: a binary file contributes nothing and
/// counts as complete; a text file contributes its header and its rendered
/// lines up to the first undecodable one.
pub open spec fn spec_file_block(display: Seq<char>, content: Seq<u8>) -> (Seq<char>, bool) {
    if !spec_is_text(content) {
        (Seq::empty(), true)
    } else {
        let body = spec_emit_lines(spec_split_lines(content));
        (spec_header(display) + body.0, body.1)
    }
}

/// Renders the content block of one included file: the pair of the rendered
/// text and whether the whole file could be rendered (`false` when a line was
/// not valid text; the header and the earlier lines are still returned).
pub fn emit_file_block(display: &str, content: &[u8]) -> (r: (String, bool))
    ensures
        (r.0@, r.1) == spec_file_block(display@, content@),
{
    if !is_text_content(content) {
        return (String::new(), true);
    }
    let mut out = String::new();
    out.append("--------------------");
    out.append("\n");
    out.append("file: ");
    out.append(display);
    out.append("\n");
    out.append("--------------------");
    out.append("\n");
    proof {
        assert(out@ == spec_header(display@));
    }
    let lines = split_lines(content);
    let ghost linesv = spec_split_lines(content@);
    let mut body = String::new();
    let mut i: usize = 0;
    proof {
        assert(linesv.skip(0) =~= linesv);
    }
    while i < lines.len()
        invariant
            lines.deep_view() =~= linesv,
            linesv == spec_split_lines(content@),
            spec_is_text(content@),
            i <= lines@.len(),
            out@ == spec_header(display@),
            spec_emit_lines(linesv).0 =~= body@ + spec_emit_lines(linesv.skip(i as int)).0,
            spec_emit_lines(linesv).1 == spec_emit_lines(linesv.skip(i as int)).1,
        decreases lines@.len() - i,
    {
        proof {
            assert(linesv.skip(i as int)[0] == linesv[i as int]);
            assert(lines.deep_view()[i as int] == linesv[i as int]);
            assert(lines@[i as int]@ == lines@[i as int].deep_view());
        }
        match decode_utf8_line(lines[i].as_slice()) {
            Option::Some(s) => {
                proof {
                    assert(linesv.skip(i as int).drop_first() =~= linesv.skip(i + 1));
                    assert(spec_emit_lines(linesv.skip(i as int)).0 =~= "    "@ + s@ + "\n"@
                        + spec_emit_lines(linesv.skip(i + 1)).0);
                }
                let ghost b0 = body@;
                body.append("    ");
                body.append(s.as_str());
                body.append("\n");
                proof {
                    assert(body@ + spec_emit_lines(linesv.skip(i + 1)).0 =~= b0 + spec_emit_lines(
                        linesv.skip(i as int),
                    ).0);
                }
            },
            Option::None => {
                proof {
                    assert(spec_emit_lines(linesv.skip(i as int)).1 == false);
                }
                out.append(body.as_str());
                proof {
                    assert(out@ =~= spec_header(display@) + spec_emit_lines(linesv).0);
                }
                return (out, false);
            },
        }
        i = i + 1;
    }
    proof {
        assert(linesv.skip(lines@.len() as int) =~= Seq::<Seq<u8>>::empty());
        assert(spec_emit_lines(linesv).0 =~= body@);
    }
    out.append(body.as_str());
    proof {
        assert(out@ =~= spec_header(display@) + spec_emit_lines(linesv).0);
    }
    (out, true)
}

} // verus!
