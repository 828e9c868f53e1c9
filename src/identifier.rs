use vstd::prelude::*;

use crate::hex_text::{decode_hex, hex_decode, is_hex, lemma_decode_ignores_case, same_up_to_case};

verus! {

/// Why a text does not parse as an identifier.
#[derive(Clone, Copy, Debug, PartialEq, Eq, Structural)]
pub enum ParseError {
    /// A character that is not a hexadecimal digit, or an odd number of digits.
    InvalidHex,
    /// Well-formed hexadecimal of a byte count that the type does not take.
    InvalidLength,
}

/// A binary identifier that can be viewed as bytes and rebuilt from
/// hexadecimal text.
pub trait HashType: Sized {
    /// The bytes of the identifier.
    spec fn byte_view(&self) -> Seq<u8>;

    /// Whether the type takes identifiers of `n` bytes.
    spec fn accepts_len(n: nat) -> bool;

    /// Every identifier has a byte count that its type takes.
    proof fn lemma_len_accepted(&self)
        ensures
            Self::accepts_len(self.byte_view().len()),
    ;

    /// The bytes of the identifier, borrowed.
    fn bytes(&self) -> (r: &[u8])
        ensures
            r@ == self.byte_view(),
    ;

    /// Parses hexadecimal text of either case: it succeeds exactly on an
    /// even number of digits that decode to a byte count the type takes.
    fn from_str(v: &str) -> (r: Result<Self, ParseError>)
        ensures
            match r {
                Ok(x) => is_hex(v@) && Self::accepts_len(decode_hex(v@).len()) && x.byte_view()
                    == decode_hex(v@),
                Err(e) => if !is_hex(v@) {
                    e == ParseError::InvalidHex
                } else {
                    !Self::accepts_len(decode_hex(v@).len()) && e == ParseError::InvalidLength
                },
            },
    ;
}

/// What parsing `s` as a `T` gives: the bytes, or the error.
pub open spec fn parse_outcome<T: HashType>(s: Seq<char>) -> Result<Seq<u8>, ParseError> {
    if !is_hex(s) {
        Err(ParseError::InvalidHex)
    } else if !T::accepts_len(decode_hex(s).len()) {
        Err(ParseError::InvalidLength)
    } else {
        Ok(decode_hex(s))
    }
}

/// Parsing ignores the case of letters: texts that are the same up to case
/// give the same bytes or the same error.
pub proof fn lemma_parse_ignores_case<T: HashType>(s: Seq<char>, t: Seq<char>)
    requires
        same_up_to_case(s, t),
    ensures
        parse_outcome::<T>(s) == parse_outcome::<T>(t),
{
    lemma_decode_ignores_case(s, t);
}

/// Text of an odd number of characters is rejected as malformed
/// hexadecimal, whatever the type.
pub proof fn lemma_odd_length_rejected<T: HashType>(s: Seq<char>)
    requires
        s.len() % 2 == 1,
    ensures
        parse_outcome::<T>(s) == Err::<Seq<u8>, ParseError>(ParseError::InvalidHex),
{
}

fn decode_bytes(v: &str) -> (r: Result<Vec<u8>, ParseError>)
    ensures
        match r {
            Ok(b) => is_hex(v@) && b@ == decode_hex(v@),
            Err(e) => !is_hex(v@) && e == ParseError::InvalidHex,
        },
{
    match hex_decode(v) {
        Ok(b) => Ok(b),
        Err(_) => Err(ParseError::InvalidHex),
    }
}

/// A raw byte buffer takes any number of bytes.
impl HashType for Vec<u8> {
    open spec fn byte_view(&self) -> Seq<u8> {
        self@
    }

    open spec fn accepts_len(n: nat) -> bool {
        true
    }

    proof fn lemma_len_accepted(&self) {
    }

    fn bytes(&self) -> (r: &[u8]) {
        self.as_slice()
    }

    fn from_str(v: &str) -> (r: Result<Self, ParseError>) {
        decode_bytes(v)
    }
}

/// Copies exactly `N` bytes into an array.
fn to_array<const N: usize>(b: &Vec<u8>) -> (r: [u8; N])
    requires
        b@.len() == N,
    ensures
        r@ == b@,
{
    let mut a: [u8; N] = [0u8; N];
    let mut i: usize = 0;
    while i < N
        invariant
            i <= N,
            b@.len() == N,
            a@.len() == N,
            forall|j: int| 0 <= j < i ==> a@[j] == b@[j],
        decreases N - i,
    {
        a[i] = b[i];
        i = i + 1;
    }
    assert(a@ =~= b@);
    a
}

/// A 32-byte cryptographic digest.
#[derive(Clone, Copy, Debug, PartialEq, Eq, PartialOrd, Ord, Hash)]
pub struct Digest(pub [u8; 32]);

impl HashType for Digest {
    open spec fn byte_view(&self) -> Seq<u8> {
        self.0@
    }

    open spec fn accepts_len(n: nat) -> bool {
        n == 32
    }

    proof fn lemma_len_accepted(&self) {
    }

    fn bytes(&self) -> (r: &[u8]) {
        self.0.as_slice()
    }

    fn from_str(v: &str) -> (r: Result<Self, ParseError>) {
        let b = decode_bytes(v)?;
        if b.len() != 32 {
            return Err(ParseError::InvalidLength);
        }
        Ok(Digest(to_array(&b)))
    }
}

/// A payment identifier: 8 bytes in its short form, 32 in its long form.
#[derive(Clone, Copy, Debug, PartialEq, Eq, PartialOrd, Ord, Hash)]
pub enum PaymentId {
    Short([u8; 8]),
    Long([u8; 32]),
}

impl HashType for PaymentId {
    open spec fn byte_view(&self) -> Seq<u8> {
        match self {
            PaymentId::Short(a) => a@,
            PaymentId::Long(a) => a@,
        }
    }

    open spec fn accepts_len(n: nat) -> bool {
        n == 8 || n == 32
    }

    proof fn lemma_len_accepted(&self) {
    }

    fn bytes(&self) -> (r: &[u8]) {
        match self {
            PaymentId::Short(a) => a.as_slice(),
            PaymentId::Long(a) => a.as_slice(),
        }
    }

    fn from_str(v: &str) -> (r: Result<Self, ParseError>) {
        let b = decode_bytes(v)?;
        if b.len() == 8 {
            Ok(PaymentId::Short(to_array(&b)))
        } else if b.len() == 32 {
            Ok(PaymentId::Long(to_array(&b)))
        } else {
            Err(ParseError::InvalidLength)
        }
    }
}

} // verus!
