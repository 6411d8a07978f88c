//! The header text protocol: lines of `Key: Value`, each ended by CR LF, the
//! first line of a block being a status line, an empty line ending the block.

use crate::headers::HeaderMap;
use vstd::prelude::*;
use vstd::slice::slice_subrange;
use vstd::utf8::{decode_utf8, valid_utf8};

verus! {

/// The byte that parts a key from its value.
pub const COLON: u8 = 58;

/// The byte that follows the separator.
pub const SPACE: u8 = 32;

/// Carriage return.
pub const CR: u8 = 13;

/// Line feed.
pub const LF: u8 = 10;

/// Whether a byte is ASCII white space: space, tab, line feed, form feed or
/// carriage return.
pub open spec fn is_blank(b: u8) -> bool {
    b == 32 || b == 9 || b == 10 || b == 12 || b == 13
}

/// The bytes without the white space at their start.
pub open spec fn trim_front(s: Seq<u8>) -> Seq<u8>
    decreases s.len(),
{
    if s.len() > 0 && is_blank(s[0]) {
        trim_front(s.skip(1))
    } else {
        s
    }
}

/// The bytes without the white space at their end.
pub open spec fn trim_back(s: Seq<u8>) -> Seq<u8>
    decreases s.len(),
{
    if s.len() > 0 && is_blank(s.last()) {
        trim_back(s.drop_last())
    } else {
        s
    }
}

/// The bytes without the white space at either end.
pub open spec fn trim(s: Seq<u8>) -> Seq<u8> {
    trim_back(trim_front(s))
}

/// Whether the first occurrence of the byte stands at `p`.
pub open spec fn is_first_at(s: Seq<u8>, b: u8, p: int) -> bool {
    &&& 0 <= p < s.len()
    &&& s[p] == b
    &&& forall|j: int| 0 <= j < p ==> s[j] != b
}

/// Where the first occurrence of the byte stands, if there is one.
pub open spec fn first_of(s: Seq<u8>, b: u8) -> Option<int> {
    if exists|p: int| is_first_at(s, b, p) {
        Some(choose|p: int| is_first_at(s, b, p))
    } else {
        None
    }
}

/// Where the first separator of the line stands, if the line has one.
pub open spec fn separator(line: Seq<u8>) -> Option<int> {
    first_of(line, COLON)
}

/// The key and the value of a line that has lost its line ending. The key is
/// what stands before the first separator, trimmed; the value is what stands
/// after the separator and the one space that must follow it. A line of any
/// other form has neither.
pub open spec fn field_of(line: Seq<u8>) -> Option<(Seq<u8>, Seq<u8>)> {
    match separator(line) {
        Some(p) => if p + 2 <= line.len() && line[p + 1] == SPACE {
            Some((trim(line.subrange(0, p)), line.subrange(p + 2, line.len() as int)))
        } else {
            None
        },
        None => None,
    }
}

/// Whether the line is the empty line that ends a header block.
pub open spec fn is_terminator(line: Seq<u8>) -> bool {
    line =~= seq![CR, LF]
}

/// Whether the line ends in CR LF.
pub open spec fn ends_with_crlf(line: Seq<u8>) -> bool {
    line.len() >= 2 && line[line.len() - 2] == CR && line[line.len() - 1] == LF
}

/// The key and the value of a line as it came off the wire, line ending
/// included.
pub open spec fn wire_field_of(line: Seq<u8>) -> Option<(Seq<u8>, Seq<u8>)> {
    if ends_with_crlf(line) {
        field_of(line.subrange(0, line.len() - 2))
    } else {
        None
    }
}

/// The first occurrence is the only position that `is_first_at` holds of.
proof fn lemma_first_unique(s: Seq<u8>, b: u8, p: int)
    requires
        is_first_at(s, b, p),
    ensures
        first_of(s, b) == Some(p),
{
    let q = choose|q: int| is_first_at(s, b, q);
    if q < p {
        assert(s[q] != b);
    }
    if p < q {
        assert(s[p] != b);
    }
}

/// Bytes that do not hold the byte have no first occurrence of it.
proof fn lemma_first_none(s: Seq<u8>, b: u8)
    requires
        forall|j: int| 0 <= j < s.len() ==> s[j] != b,
    ensures
        first_of(s, b).is_none(),
{
}

/// Whether a byte is ASCII white space.
pub fn blank(b: u8) -> (r: bool)
    ensures
        r == is_blank(b),
{
    b == 32 || b == 9 || b == 10 || b == 12 || b == 13
}

/// Where the first occurrence of the byte stands, if there is one.
pub fn find_first(s: &[u8], b: u8) -> (r: Option<usize>)
    ensures
        match r {
            Some(p) => first_of(s@, b) == Some(p as int) && p < s@.len() && s@[p as int] == b,
            None => first_of(s@, b).is_none(),
        },
{
    let n = s.len();
    let mut i: usize = 0;
    while i < n
        invariant
            n == s@.len(),
            i <= n,
            forall|j: int| 0 <= j < i ==> s@[j] != b,
        decreases n - i,
    {
        if s[i] == b {
            proof {
                lemma_first_unique(s@, b, i as int);
            }
            return Some(i);
        }
        i += 1;
    }
    proof {
        lemma_first_none(s@, b);
    }
    None
}

/// The bytes without the white space at either end.
pub fn trimmed(s: &[u8]) -> (r: &[u8])
    ensures
        r@ == trim(s@),
{
    let n = s.len();
    let mut a: usize = 0;
    proof {
        assert(s@.skip(0) =~= s@);
    }
    while a < n && blank(s[a])
        invariant
            n == s@.len(),
            a <= n,
            trim_front(s@) == trim_front(s@.skip(a as int)),
        decreases n - a,
    {
        proof {
            assert(s@.skip(a as int).skip(1) =~= s@.skip(a + 1));
        }
        a += 1;
    }
    proof {
        assert(trim_front(s@) == s@.skip(a as int));
    }
    let ghost front = s@.skip(a as int);
    let mut b: usize = n;
    while b > a && blank(s[b - 1])
        invariant
            n == s@.len(),
            a <= b <= n,
            front == s@.skip(a as int),
            trim_back(front) == trim_back(s@.subrange(a as int, b as int)),
        decreases b - a,
    {
        proof {
            assert(s@.subrange(a as int, b as int).drop_last() =~= s@.subrange(
                a as int,
                b - 1,
            ));
        }
        b -= 1;
    }
    proof {
        assert(s@.subrange(a as int, n as int) =~= front);
    }
    slice_subrange(s, a, b)
}

/// The key and the value of a line that has lost its line ending, if the line
/// has the form of a header field.
pub fn parse_field(line: &[u8]) -> (r: Option<(&[u8], &[u8])>)
    ensures
        match r {
            Some((key, value)) => field_of(line@) == Some((key@, value@)),
            None => field_of(line@).is_none(),
        },
{
    match find_first(line, COLON) {
        Some(p) => {
            if line.len() - p >= 2 && line[p + 1] == SPACE {
                let key = trimmed(slice_subrange(line, 0, p));
                let value = slice_subrange(line, p + 2, line.len());
                Some((key, value))
            } else {
                None
            }
        },
        None => None,
    }
}

/// The text that `String::from_utf8_lossy` gives for bytes that are not
/// well-formed UTF-8: their decoding, with each ill-formed stretch replaced.
pub uninterp spec fn utf8_lossy(bytes: Seq<u8>) -> Seq<char>;

/// The text that bytes stand for: their decoding where they are well-formed
/// UTF-8, else their decoding with replacements.
pub open spec fn text_of(bytes: Seq<u8>) -> Seq<char> {
    if valid_utf8(bytes) {
        decode_utf8(bytes)
    } else {
        utf8_lossy(bytes)
    }
}

/// Calls `String::from_utf8_lossy`. The text is a function of the bytes, and
/// for well-formed UTF-8 it is their decoding, with nothing replaced.
#[verifier::external_body]
pub(crate) fn decode_lossy(bytes: &[u8]) -> (r: String)
    ensures
        r@ == if valid_utf8(bytes@) {
            decode_utf8(bytes@)
        } else {
            utf8_lossy(bytes@)
        },
{
    String::from_utf8_lossy(bytes).into_owned()
}

/// What one delivered line does to the header state: whether the line is
/// accepted, whether the next line opens a block, and the mapping afterwards.
pub open spec fn line_step(
    line: Seq<u8>,
    first: bool,
    headers: Map<Seq<char>, Seq<char>>,
) -> (bool, bool, Map<Seq<char>, Seq<char>>) {
    if first {
        (true, false, headers)
    } else if is_terminator(line) {
        (true, true, headers)
    } else {
        match wire_field_of(line) {
            Some((key, value)) => (true, false, headers.insert(text_of(key), text_of(value))),
            None => (false, false, headers),
        }
    }
}

/// Takes in one header line as the transport delivers it, line ending
/// included. The first line of a block is the status line and is passed
/// over; the empty line ends the block, so that the line after it opens the
/// next one; any other line must be a header field, which is written into
/// `headers`. Returns whether the line was accepted: a line that is no header
/// field is refused and leaves `headers` as it was.
pub fn parse_header(input: &[u8], first: &mut bool, headers: &mut HeaderMap) -> (accepted: bool)
    ensures
        (accepted, *final(first), final(headers)@) == line_step(input@, *old(first), old(headers)@),
{
    if *first {
        *first = false;
        return true;
    }
    let n = input.len();
    if n == 2 && input[0] == CR && input[1] == LF {
        *first = true;
        return true;
    }
    if n >= 2 && input[n - 2] == CR && input[n - 1] == LF {
        match parse_field(slice_subrange(input, 0, n - 2)) {
            Some((key, value)) => {
                headers.insert(decode_lossy(key), decode_lossy(value));
                true
            },
            None => false,
        }
    } else {
        false
    }
}

/// The line that carries a header field on the wire.
pub open spec fn wire_line(key: Seq<u8>, value: Seq<u8>) -> Seq<u8> {
    key + seq![COLON, SPACE] + value + seq![CR, LF]
}

/// A header field that the peer sends is found again under its key: after
/// the line `key: value` has been taken in, past the status line, the mapping
/// holds exactly the sent value under the sent key, trimmed. Where key and
/// value are well-formed UTF-8, they are found as the very text that was
/// sent.
pub proof fn law_header_round_trip(
    key: Seq<u8>,
    value: Seq<u8>,
    headers: Map<Seq<char>, Seq<char>>,
)
    requires
        forall|j: int| 0 <= j < key.len() ==> key[j] != COLON,
    ensures
        wire_field_of(wire_line(key, value)) == Some((trim(key), value)),
        line_step(wire_line(key, value), false, headers) == (
            true,
            false,
            headers.insert(text_of(trim(key)), text_of(value)),
        ),
        line_step(wire_line(key, value), false, headers).2[text_of(trim(key))] == text_of(value),
        valid_utf8(trim(key)) && valid_utf8(value) ==> line_step(
            wire_line(key, value),
            false,
            headers,
        ).2[decode_utf8(trim(key))] == decode_utf8(value),
{
    let line = wire_line(key, value);
    let bare = line.subrange(0, line.len() - 2);
    let p = key.len() as int;
    assert(line.len() == key.len() + value.len() + 4);
    assert(line[line.len() - 2] == CR);
    assert(line[line.len() - 1] == LF);
    assert(bare =~= key + seq![COLON, SPACE] + value);
    assert(bare[p] == COLON);
    assert(bare[p + 1] == SPACE);
    assert forall|j: int| 0 <= j < p implies bare[j] != COLON by {
        assert(bare[j] == key[j]);
    }
    assert(is_first_at(bare, COLON, p));
    lemma_first_unique(bare, COLON, p);
    assert(bare.subrange(0, p) =~= key);
    assert(bare.subrange(p + 2, bare.len() as int) =~= value);
    assert(!is_terminator(line)) by {
        if line.len() == 2 {
            assert(false);
        }
    }
}

} // verus!
