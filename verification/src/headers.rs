//! Turning the header lines of a request into a name-to-text mapping.

use vstd::prelude::*;
use vstd::utf8::{decode_utf8, valid_utf8};
use crate::fields::{last_wins, written_in_turn, FieldMap};

verus! {

/// One header line as received: its name and the raw bytes of its value.
pub struct HeaderField {
    pub name: String,
    pub value: Vec<u8>,
}

/// The text recorded for a header value: the text that the bytes encode
/// where they are well-formed UTF-8, the empty text otherwise.
pub open spec fn header_text(bytes: Seq<u8>) -> Seq<char> {
    if valid_utf8(bytes) {
        decode_utf8(bytes)
    } else {
        Seq::empty()
    }
}

/// The (name, text) pairs recorded for a sequence of header lines.
pub open spec fn header_pairs(fields: Seq<HeaderField>) -> Seq<(Seq<char>, Seq<char>)> {
    Seq::new(fields.len(), |i: int| (fields[i].name@, header_text(fields[i].value@)))
}

/// Calls `std::str::from_utf8`. Trusted: the call succeeds exactly when the
/// bytes are well-formed UTF-8, and the text then is what they encode.
#[verifier::external_body]
fn utf8_text(bytes: &[u8]) -> (r: Option<&str>)
    ensures
        r.is_some() <==> valid_utf8(bytes@),
        r matches Some(text) ==> text@ == decode_utf8(bytes@),
{
    std::str::from_utf8(bytes).ok()
}

/// The text recorded for a raw header value; empty where the value is not
/// well-formed UTF-8.
pub fn decode_header_value(bytes: &[u8]) -> (r: String)
    ensures
        r@ == header_text(bytes@),
{
    match utf8_text(bytes) {
        Some(text) => text.to_owned(),
        None => String::new(),
    }
}

/// Writes the header lines into a mapping, in order; of a repeated name the
/// last line stays.
pub fn collect_headers(fields: &Vec<HeaderField>) -> (r: FieldMap)
    ensures
        r.wf(),
        r@ == last_wins(header_pairs(fields@)),
        r.order() == written_in_turn(header_pairs(fields@)),
{
    let mut map = FieldMap::new();
    let mut i: usize = 0;
    while i < fields.len()
        invariant
            i <= fields@.len(),
            map.wf(),
            map@ == last_wins(header_pairs(fields@).take(i as int)),
            map.order() == written_in_turn(header_pairs(fields@).take(i as int)),
        decreases fields@.len() - i,
    {
        let name = fields[i].name.clone();
        let text = decode_header_value(fields[i].value.as_slice());
        map.insert(name, text);
        proof {
            let pairs = header_pairs(fields@);
            assert(pairs.take(i + 1).drop_last() =~= pairs.take(i as int));
            assert(pairs.take(i + 1).last() == pairs[i as int]);
        }
        i += 1;
    }
    proof {
        assert(header_pairs(fields@).take(i as int) =~= header_pairs(fields@));
    }
    map
}

} // verus!
