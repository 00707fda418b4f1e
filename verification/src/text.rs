//! Length-prefixed text: a four-byte little-endian count of bytes, then that
//! many bytes of UTF-8.

use crate::wire::{
    get_bytes, get_le, le_bytes, le_value, lemma_capacity_values, lemma_le_bytes_len,
    lemma_le_bytes_of_value, lemma_le_value_bound, lemma_le_value_of_bytes, put_bytes, put_le,
};
use vstd::prelude::*;
use vstd::utf8::*;

verus! {

/// The error of `String::from_utf8`. Nothing is read from it.
#[verifier::external_type_specification]
#[verifier::external_body]
pub struct ExFromUtf8Error(std::string::FromUtf8Error);

/// `String::from_utf8` of the standard library. It succeeds exactly on byte
/// vectors that are well-formed UTF-8, and the string it then returns is made
/// of the very bytes it was given.
pub assume_specification[ String::from_utf8 ](vec: Vec<u8>) -> (res: Result<
    String,
    std::string::FromUtf8Error,
>)
    ensures
        res is Ok <==> valid_utf8(vec@),
        match res {
            Ok(text) => encode_utf8(text@) == vec@,
            Err(_) => true,
        },
;

/// Whether the UTF-8 form of `text` is short enough for its length to be
/// written in four bytes.
pub open spec fn text_fits(text: Seq<char>) -> bool {
    encode_utf8(text).len() <= u32::MAX
}

/// The wire form of `text`: the length of its UTF-8 form, then that form.
pub open spec fn encode_text(text: Seq<char>) -> Seq<u8> {
    le_bytes(encode_utf8(text).len(), 4) + encode_utf8(text)
}

/// The two parts of an encoded text, and the length read back from the first.
pub proof fn lemma_encode_text_parts(text: Seq<char>)
    requires
        text_fits(text),
    ensures
        encode_text(text).len() == 4 + encode_utf8(text).len(),
        encode_text(text).subrange(0, 4) == le_bytes(encode_utf8(text).len(), 4),
        encode_text(text).subrange(4, encode_text(text).len() as int) == encode_utf8(text),
        le_value(encode_text(text).subrange(0, 4)) == encode_utf8(text).len(),
{
    let prefix = le_bytes(encode_utf8(text).len(), 4);
    lemma_le_bytes_len(encode_utf8(text).len(), 4);
    lemma_capacity_values();
    lemma_le_value_of_bytes(encode_utf8(text).len(), 4);
    assert(encode_text(text).subrange(0, 4) =~= prefix);
    assert(encode_text(text).subrange(4, encode_text(text).len() as int) =~= encode_utf8(text));
}

/// No two texts have wire forms that start at the same place of the same
/// bytes: the form of a text says where it ends, and it says which text it is.
pub proof fn lemma_encode_text_unique(bytes: Seq<u8>, start: int, first: Seq<char>, second: Seq<char>)
    requires
        text_fits(first),
        text_fits(second),
        0 <= start,
        start + encode_text(first).len() <= bytes.len(),
        start + encode_text(second).len() <= bytes.len(),
        bytes.subrange(start, start + encode_text(first).len()) == encode_text(first),
        bytes.subrange(start, start + encode_text(second).len()) == encode_text(second),
    ensures
        first == second,
{
    lemma_encode_text_parts(first);
    lemma_encode_text_parts(second);
    let one = bytes.subrange(start, start + encode_text(first).len());
    let two = bytes.subrange(start, start + encode_text(second).len());
    assert(one.subrange(0, 4) =~= bytes.subrange(start, start + 4));
    assert(two.subrange(0, 4) =~= bytes.subrange(start, start + 4));
    assert(encode_utf8(first).len() == encode_utf8(second).len());
    assert(one.subrange(4, one.len() as int) =~= two.subrange(4, two.len() as int));
    encode_utf8_decode_utf8(first);
    encode_utf8_decode_utf8(second);
}

/// Appends the wire form of `text` to `out`, if its length can be written.
pub fn put_text(out: &mut Vec<u8>, text: &str) -> (written: bool)
    ensures
        written == text_fits(text@),
        written ==> final(out)@ == old(out)@ + encode_text(text@),
        !written ==> final(out)@ == old(out)@,
{
    let body = text.as_bytes();
    let count: usize = body.len();
    if count > 0xffff_ffff {
        return false;
    }
    put_le(out, count as u64, 4);
    put_bytes(out, body);
    assert(out@ =~= old(out)@ + encode_text(text@));
    true
}

/// Reads the text whose wire form starts at `start`. `None` means that no
/// text's wire form stands there.
pub fn get_text(bytes: &[u8], start: usize) -> (found: Option<(String, usize)>)
    requires
        start <= bytes@.len(),
    ensures
        match found {
            Some((text, end)) => {
                &&& text_fits(text@)
                &&& start <= end <= bytes@.len()
                &&& end == start + encode_text(text@).len()
                &&& bytes@.subrange(start as int, end as int) == encode_text(text@)
            },
            None => forall|text: Seq<char>|
                text_fits(text) && start + (#[trigger] encode_text(text)).len() <= bytes@.len()
                    ==> bytes@.subrange(start as int, start + encode_text(text).len())
                    != encode_text(text),
        },
{
    let total: usize = bytes.len();
    if total - start < 4 {
        assert forall|text: Seq<char>|
            text_fits(text) && start + (#[trigger] encode_text(text)).len()
                <= bytes@.len() implies bytes@.subrange(
            start as int,
            start + encode_text(text).len(),
        ) != encode_text(text) by {
            lemma_encode_text_parts(text);
        }
        return None;
    }
    let count: u64 = get_le(bytes, start, 4);
    let body_start: usize = start + 4;
    if ((total - body_start) as u64) < count {
        assert forall|text: Seq<char>|
            text_fits(text) && start + (#[trigger] encode_text(text)).len()
                <= bytes@.len() implies bytes@.subrange(
            start as int,
            start + encode_text(text).len(),
        ) != encode_text(text) by {
            lemma_encode_text_parts(text);
            let form = bytes@.subrange(start as int, start + encode_text(text).len());
            if form == encode_text(text) {
                assert(form.subrange(0, 4) =~= bytes@.subrange(start as int, start + 4));
            }
        }
        return None;
    }
    let body_end: usize = body_start + count as usize;
    let body: Vec<u8> = get_bytes(bytes, body_start, body_end);
    let ghost prefix = bytes@.subrange(start as int, start + 4);
    let ghost raw = body@;
    proof {
        lemma_le_value_bound(prefix);
        lemma_capacity_values();
        lemma_le_bytes_of_value(prefix);
    }
    match String::from_utf8(body) {
        Ok(text) => {
            assert(bytes@.subrange(start as int, body_end as int) =~= prefix + raw);
            Some((text, body_end))
        },
        Err(_) => {
            assert forall|text: Seq<char>|
                text_fits(text) && start + (#[trigger] encode_text(text)).len()
                    <= bytes@.len() implies bytes@.subrange(
                start as int,
                start + encode_text(text).len(),
            ) != encode_text(text) by {
                lemma_encode_text_parts(text);
                let form = bytes@.subrange(start as int, start + encode_text(text).len());
                if form == encode_text(text) {
                    assert(form.subrange(0, 4) =~= prefix);
                    assert(form.subrange(4, form.len() as int) =~= raw);
                    encode_utf8_valid_utf8(text);
                }
            }
            None
        },
    }
}

} // verus!
