//! A whole header block handed over at once, as the callback-driven system
//! HTTP stack does it: UTF-16 text, one line per header, the status line
//! first. Every line that is not padding must be a header field.

use crate::codec::{
    decode_lossy, field_of, find_first, first_of, parse_field, text_of, CR, LF,
};
use crate::error::{Error, ErrorView};
use crate::headers::HeaderMap;
use vstd::prelude::*;
use vstd::slice::slice_subrange;
use vstd::string::StringSliceAdditionalSpecFns;

verus! {

/// The bytes without one carriage return at their end.
pub open spec fn strip_cr(s: Seq<u8>) -> Seq<u8> {
    if s.len() > 0 && s.last() == CR {
        s.drop_last()
    } else {
        s
    }
}

/// The first line of the text, without its line ending: a line feed, or a
/// carriage return and a line feed. Text without a line feed is one line.
pub open spec fn first_line(text: Seq<u8>) -> Seq<u8> {
    match first_of(text, LF) {
        Some(i) => strip_cr(text.take(i)),
        None => text,
    }
}

/// What follows the first line of the text and its line ending.
pub open spec fn after_first_line(text: Seq<u8>) -> Seq<u8> {
    match first_of(text, LF) {
        Some(i) => if 0 <= i < text.len() {
            text.skip(i + 1)
        } else {
            Seq::empty()
        },
        None => Seq::empty(),
    }
}

/// Whether a line carries nothing: it is empty, or it is the single NUL that
/// ends the block.
pub open spec fn is_padding(line: Seq<u8>) -> bool {
    line.len() == 0 || line =~= seq![0u8]
}

/// The mapping that the lines of the text add up to, starting from `found`.
/// A first line that `skip` marks as the status line is passed over, and so
/// is padding; every other line must be a header field, or there is no
/// mapping at all.
pub open spec fn fields_of_text(
    text: Seq<u8>,
    skip: bool,
    found: Map<Seq<char>, Seq<char>>,
) -> Option<Map<Seq<char>, Seq<char>>>
    decreases text.len(),
{
    if text.len() == 0 {
        Some(found)
    } else {
        let line = first_line(text);
        let rest = after_first_line(text);
        if skip || is_padding(line) {
            fields_of_text(rest, false, found)
        } else {
            match field_of(line) {
                Some((key, value)) => fields_of_text(
                    rest,
                    false,
                    found.insert(text_of(key), text_of(value)),
                ),
                None => None,
            }
        }
    }
}

/// The header mapping of a block of text: what its lines after the status
/// line add up to.
pub open spec fn header_block(text: Seq<u8>) -> Option<Map<Seq<char>, Seq<char>>> {
    fields_of_text(text, true, Map::empty())
}

/// The text that `String::from_utf16` decodes the units to, if they are
/// well-formed UTF-16.
pub uninterp spec fn utf16_text(units: Seq<u16>) -> Option<Seq<char>>;

/// The units that `str::encode_utf16` encodes the text to.
pub uninterp spec fn utf16_units(text: Seq<char>) -> Seq<u16>;

/// The header mapping of a block in UTF-16, if the units are well-formed and
/// the text is a valid block.
pub open spec fn block_mapping(raw: Seq<u16>) -> Option<Map<Seq<char>, Seq<char>>> {
    match utf16_text(raw) {
        Some(text) => header_block(vstd::utf8::encode_utf8(text)),
        None => None,
    }
}

/// Calls `String::from_utf16`. The text is a function of the units, and there
/// is none exactly when the call fails.
#[verifier::external_body]
fn decode_utf16(units: &[u16]) -> (r: Option<String>)
    ensures
        match r {
            Some(text) => utf16_text(units@) == Some(text@),
            None => utf16_text(units@).is_none(),
        },
{
    String::from_utf16(units).ok()
}

/// Calls `str::encode_utf16` and collects what it yields. The units are a
/// function of the text.
#[verifier::external_body]
fn encode_utf16(text: &str) -> (r: Vec<u16>)
    ensures
        r@ == utf16_units(text@),
{
    text.encode_utf16().collect()
}

/// The text as the system stack wants it: UTF-16 units, and a zero to end
/// them.
pub fn to_wide_string(string: &str) -> (r: Vec<u16>)
    ensures
        r@ == utf16_units(string@).push(0u16),
{
    let mut units = encode_utf16(string);
    units.push(0);
    units
}

/// Reads the header mapping out of a block of text. The first line is the
/// status line and is passed over, as are empty lines and the NUL that ends
/// the block. Any other line that is not a header field makes the whole
/// block invalid.
pub fn parse_header_text(text: &str) -> (r: Result<HeaderMap, Error>)
    ensures
        match header_block(text.spec_bytes()) {
            Some(mapping) => r.is_ok() && r.unwrap()@ == mapping,
            None => r.is_err() && r.unwrap_err()@ == ErrorView::InvalidHeader,
        },
{
    let bytes = text.as_bytes();
    let n = bytes.len();
    let mut headers = HeaderMap::new();
    let mut pos: usize = 0;
    let mut skip = true;
    proof {
        assert(bytes@.skip(0) =~= bytes@);
    }
    while pos < n
        invariant
            n == bytes@.len(),
            pos <= n,
            bytes@ == text.spec_bytes(),
            header_block(bytes@) == fields_of_text(bytes@.skip(pos as int), skip, headers@),
        decreases n - pos,
    {
        let rest = slice_subrange(bytes, pos, n);
        proof {
            assert(rest@ =~= bytes@.skip(pos as int));
        }
        let found = find_first(rest, LF);
        let (line, step): (&[u8], usize) = match found {
            Some(i) => {
                let upto = slice_subrange(rest, 0, i);
                proof {
                    assert(upto@ =~= rest@.take(i as int));
                    assert(rest@.skip(i as int + 1) =~= bytes@.skip(pos as int + i as int + 1));
                }
                if i > 0 && upto[i - 1] == CR {
                    let line = slice_subrange(upto, 0, i - 1);
                    proof {
                        assert(line@ =~= upto@.drop_last());
                    }
                    (line, i + 1)
                } else {
                    (upto, i + 1)
                }
            },
            None => {
                proof {
                    assert(bytes@.skip(n as int) =~= Seq::<u8>::empty());
                }
                (rest, n - pos)
            },
        };
        assert(line@ == first_line(rest@));
        assert(bytes@.skip(pos + step) == after_first_line(rest@));
        let padding = line.len() == 0 || (line.len() == 1 && line[0] == 0);
        proof {
            if line@.len() == 1 && line@[0] == 0 {
                assert(line@ =~= seq![0u8]);
            }
            if line@ =~= seq![0u8] {
                assert(line@.len() == 1 && line@[0] == 0);
            }
            assert(padding == is_padding(line@));
            assert(rest@.len() > 0);
        }
        if !(skip || padding) {
            match parse_field(line) {
                Some((key, value)) => {
                    headers.insert(decode_lossy(key), decode_lossy(value));
                },
                None => {
                    return Err(Error::InvalidHeader);
                },
            }
        }
        skip = false;
        pos = pos + step;
    }
    proof {
        assert(bytes@.skip(n as int) =~= Seq::<u8>::empty());
    }
    Ok(headers)
}

/// Reads the header mapping out of a block as the system stack hands it over,
/// in UTF-16. Units that are no well-formed UTF-16 make the block invalid;
/// else the block is read as `parse_header_text` reads its text.
pub fn parse_header_block(raw: &[u16]) -> (r: Result<HeaderMap, Error>)
    ensures
        match block_mapping(raw@) {
            Some(mapping) => r.is_ok() && r.unwrap()@ == mapping,
            None => r.is_err() && r.unwrap_err()@ == ErrorView::InvalidHeader,
        },
{
    match decode_utf16(raw) {
        Some(text) => parse_header_text(text.as_str()),
        None => Err(Error::InvalidHeader),
    }
}

} // verus!
