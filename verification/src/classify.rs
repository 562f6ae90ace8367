//! Text-or-binary classification of a file's leading bytes.
//!
//! Classification is a pure function of the byte sample: an empty sample is
//! text, and otherwise a content-sniffing heuristic over the sample decides.
//! It never looks at a file's name or extension.

use vstd::prelude::*;

verus! {

/// How many leading bytes of a file the classifier samples.
pub const SAMPLE_LEN: usize = 1024;

/// What the content heuristic answers for a byte sample, exactly as
/// `content_inspector::inspect(..).is_text()` computes it.
pub uninterp spec fn inspects_text(bytes: Seq<u8>) -> bool;

/// Whether the bytes start with one of the byte-order marks the heuristic
/// recognizes as an encoded-text marker.
pub open spec fn spec_has_bom(bytes: Seq<u8>) -> bool {
    ||| (bytes.len() >= 3 && bytes[0] == 0xef && bytes[1] == 0xbb && bytes[2] == 0xbf)
    ||| (bytes.len() >= 2 && bytes[0] == 0xfe && bytes[1] == 0xff)
    ||| (bytes.len() >= 2 && bytes[0] == 0xff && bytes[1] == 0xfe)
    ||| (bytes.len() >= 4 && bytes[0] == 0x00 && bytes[1] == 0x00 && bytes[2] == 0xfe && bytes[3]
        == 0xff)
}

/// Relies on `content_inspector::inspect`: the answer is a function of the
/// byte sample alone; an empty sample reports as text; and a sample without a
/// recognized byte-order mark whose first kilobyte holds a zero byte reports
/// as binary.
#[verifier::external_body]
fn inspect_is_text(bytes: &[u8]) -> (r: bool)
    ensures
        r == inspects_text(bytes@),
        bytes@.len() == 0 ==> r == true,
        (!spec_has_bom(bytes@) && exists|i: int|
            0 <= i < bytes@.len() && i < 1024 && bytes@[i] == 0) ==> r == false,
{
    content_inspector::inspect(bytes).is_text()
}

/// Whether a file whose content is `bytes` classifies as text: empty files
/// are text, and otherwise the heuristic over the first `SAMPLE_LEN` bytes
/// decides.
pub open spec fn spec_is_text(bytes: Seq<u8>) -> bool {
    if bytes.len() == 0 {
        true
    } else if bytes.len() <= SAMPLE_LEN {
        inspects_text(bytes)
    } else {
        inspects_text(bytes.take(SAMPLE_LEN as int))
    }
}

/// Classifies file content as text or binary from its leading bytes.
///
/// A zero-length content always classifies as text. A content without a
/// leading byte-order mark that holds a zero byte in its first kilobyte
/// always classifies as binary.
pub fn is_text_content(content: &[u8]) -> (r: bool)
    ensures
        r == spec_is_text(content@),
        content@.len() == 0 ==> r == true,
        (!spec_has_bom(content@) && exists|i: int|
            0 <= i < content@.len() && i < 1024 && content@[i] == 0) ==> r == false,
{
    let n = content.len();
    if n == 0 {
        return true;
    }
    if n <= SAMPLE_LEN {
        inspect_is_text(content)
    } else {
        let sample = vstd::slice::slice_subrange(content, 0, SAMPLE_LEN);
        let r = inspect_is_text(sample);
        proof {
            assert(sample@ == content@.take(SAMPLE_LEN as int));
            assert(spec_has_bom(sample@) == spec_has_bom(content@));
            if !spec_has_bom(content@) && exists|i: int|
                0 <= i < content@.len() && i < 1024 && content@[i] == 0 {
                let i = choose|i: int| 0 <= i < content@.len() && i < 1024 && content@[i] == 0;
                assert(sample@[i] == 0);
            }
        }
        r
    }
}

} // verus!
