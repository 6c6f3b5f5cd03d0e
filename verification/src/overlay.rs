//! The texts shown over agents in the world: name labels and speech bubbles.
//! Lengths are counted in UTF-8 bytes; a text is cut at a byte position,
//! which must fall between two characters.

use vstd::prelude::*;
use vstd::string::StringSliceAdditionalSpecFns;
use vstd::utf8::{decode_utf8, encode_utf8_decode_utf8, is_char_boundary};
use crate::text::append;

verus! {

/// `text` cut to its first `keep` bytes and an ellipsis when it is longer
/// than `max` bytes.
fn shorten(text: &str, max: usize, keep: usize) -> (s: String)
    requires
        keep <= max,
        text.spec_bytes().len() > max ==> is_char_boundary(text.spec_bytes(), keep as int),
    ensures
        text.spec_bytes().len() <= max ==> s@ == text@,
        text.spec_bytes().len() > max ==> s@ == decode_utf8(text.spec_bytes().take(keep as int)) + "..."@,
{
    let n = text.as_bytes().len();
    if n <= max {
        String::from_str(text)
    } else {
        let (head, _rest) = text.split_at(keep);
        proof {
            encode_utf8_decode_utf8(head@);
            assert(head.spec_bytes() =~= text.spec_bytes().take(keep as int));
            assert(decode_utf8(head.spec_bytes()) == head@);
            assert(decode_utf8(text.spec_bytes().take(keep as int)) == head@);
        }
        let mut s = String::from_str(head);
        let ghost h = s@;
        assert(h == head@);
        append(&mut s, "...");
        s
    }
}

/// The label shown under an agent: its name, cut to its first 11 bytes and
/// an ellipsis when it is longer than 14 bytes.
pub fn label_text(name: &str) -> (s: String)
    requires
        name.spec_bytes().len() > 14 ==> is_char_boundary(name.spec_bytes(), 11),
    ensures
        name.spec_bytes().len() <= 14 ==> s@ == name@,
        name.spec_bytes().len() > 14 ==> s@ == decode_utf8(name.spec_bytes().take(11)) + "..."@,
{
    shorten(name, 14, 11)
}

/// The speech bubble shown over an agent: what it says, cut to its first 37
/// bytes and an ellipsis when it is longer than 40 bytes.
pub fn bubble_text(speech: &str) -> (s: String)
    requires
        speech.spec_bytes().len() > 40 ==> is_char_boundary(speech.spec_bytes(), 37),
    ensures
        speech.spec_bytes().len() <= 40 ==> s@ == speech@,
        speech.spec_bytes().len() > 40 ==> s@ == decode_utf8(speech.spec_bytes().take(37)) + "..."@,
{
    shorten(speech, 40, 37)
}

} // verus!
