//! Locating the metadata block at the head of a document, and putting a
//! document back together around a rewritten block.
use vstd::prelude::*;
use vstd::string::StringSliceAdditionalSpecFns;
use vstd::utf8::*;

verus! {

broadcast use group_utf8_lib;

/// The byte of the delimiter character `-`.
pub const DASH: u8 = 45;

/// The delimiter `---` occupies bytes `i .. i + 3` of `b`.
pub open spec fn delimiter_at(b: Seq<u8>, i: int) -> bool {
    0 <= i && i + 3 <= b.len() && b[i] == DASH && b[i + 1] == DASH && b[i + 2] == DASH
}

/// The first delimiter that starts at or after byte `from`, if any.
pub open spec fn next_delimiter(b: Seq<u8>, from: int) -> Option<int>
    decreases b.len() - from,
{
    if from < 0 || from + 3 > b.len() {
        None
    } else if delimiter_at(b, from) {
        Some(from)
    } else {
        next_delimiter(b, from + 1)
    }
}

/// The document opens with a delimiter and has a second one after it:
/// the offset of that closing delimiter.
pub open spec fn closing_delimiter(b: Seq<u8>) -> Option<int> {
    if delimiter_at(b, 0) {
        next_delimiter(b, 3)
    } else {
        None
    }
}

/// Whether the document carries a metadata block.
pub open spec fn has_block(b: Seq<u8>) -> bool {
    closing_delimiter(b) is Some
}

/// The bytes strictly between the two delimiters.
pub open spec fn block_bytes(b: Seq<u8>) -> Seq<u8> {
    b.subrange(3, closing_delimiter(b)->0)
}

/// The bytes after the closing delimiter.
pub open spec fn body_bytes(b: Seq<u8>) -> Seq<u8> {
    b.subrange(closing_delimiter(b)->0 + 3, b.len() as int)
}

proof fn lemma_next_delimiter(b: Seq<u8>, from: int)
    requires
        0 <= from,
    ensures
        next_delimiter(b, from) matches Some(j) ==> from <= j && delimiter_at(b, j),
    decreases b.len() - from,
{
    if from + 3 <= b.len() && !delimiter_at(b, from) {
        lemma_next_delimiter(b, from + 1);
    }
}

proof fn lemma_boundary_after_delimiter(b: Seq<u8>)
    requires
        valid_utf8(b),
        delimiter_at(b, 0),
    ensures
        is_char_boundary(b, 3),
{
    reveal_with_fuel(is_char_boundary, 4);
    reveal_with_fuel(valid_utf8, 4);
    let b1 = pop_first_scalar(b);
    let b2 = pop_first_scalar(b1);
    assert(b1 =~= b.subrange(1, b.len() as int));
    assert(b2 =~= b.subrange(2, b.len() as int));
}

/// Splits `content` into the text of its metadata block and the body after
/// the block. `None` when the document does not start with `---`, or has no
/// second `---` after the opening one.
pub fn split_frontmatter(content: &str) -> (r: Option<(String, String)>)
    ensures
        r is None <==> !has_block(content.spec_bytes()),
        r matches Some((block, body)) ==> encode_utf8(block@) == block_bytes(content.spec_bytes())
            && encode_utf8(body@) == body_bytes(content.spec_bytes()),
{
    let b = content.as_bytes();
    let n = b.len();
    if n < 3 || b[0] != DASH || b[1] != DASH || b[2] != DASH {
        return None;
    }
    let mut i: usize = 3;
    while n - i >= 3
        invariant
            b@ == content.spec_bytes(),
            n == b@.len(),
            3 <= i <= n,
            delimiter_at(b@, 0),
            next_delimiter(b@, 3) == next_delimiter(b@, i as int),
        decreases n - i,
    {
        if b[i] == DASH && b[i + 1] == DASH && b[i + 2] == DASH {
            proof {
                lemma_next_delimiter(b@, 3);
            }
            let ghost bytes = b@;
            proof {
                assert(!is_continuation_byte(bytes[i as int]));
                assert(is_char_boundary(bytes, i as int));
            }
            let (head, tail) = content.split_at(i);
            proof {
                assert(valid_utf8(tail.spec_bytes()));
                assert(valid_utf8(head.spec_bytes()));
                lemma_boundary_after_delimiter(tail.spec_bytes());
                lemma_boundary_after_delimiter(head.spec_bytes());
            }
            let (_, block) = head.split_at(3);
            let (_, body) = tail.split_at(3);
            proof {
                assert(block.spec_bytes() =~= bytes.subrange(3, i as int));
                assert(body.spec_bytes() =~= bytes.subrange(i + 3, n as int));
            }
            return Some((block.to_owned(), body.to_owned()));
        }
        i = i + 1;
    }
    None
}

/// The document rebuilt around a rewritten block: an opening `---` on a line
/// of its own, the block, a closing `---`, and the body as it was.
pub open spec fn assembled(block: Seq<char>, body: Seq<char>) -> Seq<char> {
    seq!['-', '-', '-', '\n'] + block + seq!['-', '-', '-'] + body
}

/// Builds a document from a block and the body that follows it.
pub fn assemble(block: &str, body: &str) -> (r: String)
    ensures
        r@ == assembled(block@, body@),
{
    let mut r = String::from_str("---\n");
    r.append(block);
    r.append("---");
    r.append(body);
    proof {
        reveal_strlit("---\n");
        reveal_strlit("---");
        assert(r@ =~= assembled(block@, body@));
    }
    r
}

/// A document that does not open with `---` has no metadata block.
pub proof fn lemma_no_opening_no_block(b: Seq<u8>)
    requires
        !delimiter_at(b, 0),
    ensures
        !has_block(b),
{
}

/// A document that opens with `---` but has no `---` after it has no
/// metadata block.
pub proof fn lemma_no_closing_no_block(b: Seq<u8>)
    requires
        delimiter_at(b, 0),
        forall|i: int| 3 <= i ==> !delimiter_at(b, i),
    ensures
        !has_block(b),
{
    lemma_next_delimiter(b, 3);
}

} // verus!
