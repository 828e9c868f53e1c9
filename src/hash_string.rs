use vstd::prelude::*;

use crate::hex_text::{
    encode_hex, hex_encode, is_lower_hex, lemma_decode_encode, lemma_encode_canonical,
};
use crate::identifier::{parse_outcome, HashType, ParseError};

verus! {

/// An identifier that travels as hexadecimal text.
#[derive(Clone, Debug)]
pub struct HashString<T>(pub T);

impl<T: HashType> HashString<T> {
    /// The bytes of the wrapped identifier.
    pub open spec fn byte_view(&self) -> Seq<u8> {
        self.0.byte_view()
    }

    /// Wraps an identifier as it is.
    pub fn new(value: T) -> (r: Self)
        ensures
            r.0 == value,
    {
        HashString(value)
    }

    /// The canonical text: two lowercase hexadecimal digits per byte.
    pub fn to_hex_string(&self) -> (r: String)
        ensures
            r@ == encode_hex(self.byte_view()),
            r@.len() == 2 * self.byte_view().len(),
            is_lower_hex(r@),
    {
        proof {
            lemma_encode_canonical(self.byte_view());
        }
        hex_encode(self.0.bytes())
    }

    /// Reads a wrapped identifier back from hexadecimal text of either case.
    pub fn parse(s: &str) -> (r: Result<Self, ParseError>)
        ensures
            match r {
                Ok(h) => parse_outcome::<T>(s@) == Ok::<Seq<u8>, ParseError>(h.byte_view()),
                Err(e) => parse_outcome::<T>(s@) == Err::<Seq<u8>, ParseError>(e),
            },
    {
        match T::from_str(s) {
            Ok(x) => Ok(HashString(x)),
            Err(e) => Err(e),
        }
    }
}

/// Reading back the canonical text of a wrapped identifier succeeds, for
/// every identifier type, and gives an identifier with the same bytes.
pub proof fn lemma_text_round_trip<T: HashType>(h: HashString<T>)
    ensures
        parse_outcome::<T>(encode_hex(h.byte_view())) == Ok::<Seq<u8>, ParseError>(h.byte_view()),
{
    lemma_encode_canonical(h.byte_view());
    lemma_decode_encode(h.byte_view());
    h.0.lemma_len_accepted();
}

} // verus!
