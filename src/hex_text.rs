use vstd::prelude::*;

verus! {

/// Whether `c` is a hexadecimal digit, in either case.
pub open spec fn is_hex_digit(c: char) -> bool {
    ('0' <= c && c <= '9') || ('a' <= c && c <= 'f') || ('A' <= c && c <= 'F')
}

/// Whether `c` is a digit of the canonical (lowercase) form.
pub open spec fn is_lower_hex_digit(c: char) -> bool {
    ('0' <= c && c <= '9') || ('a' <= c && c <= 'f')
}

/// The value of a hexadecimal digit.
pub open spec fn hex_value(c: char) -> int {
    if '0' <= c && c <= '9' {
        c as int - '0' as int
    } else if 'a' <= c && c <= 'f' {
        c as int - 'a' as int + 10
    } else {
        c as int - 'A' as int + 10
    }
}

/// The lowercase digit for a value below 16.
pub open spec fn lower_digit(n: int) -> char {
    if n < 10 {
        (n + '0' as int) as char
    } else {
        (n - 10 + 'a' as int) as char
    }
}

/// Text that decodes: an even number of hexadecimal digits.
pub open spec fn is_hex(s: Seq<char>) -> bool {
    s.len() % 2 == 0 && forall|i: int| 0 <= i < s.len() ==> #[trigger] is_hex_digit(s[i])
}

/// Text in canonical form: lowercase hexadecimal digits only.
pub open spec fn is_lower_hex(s: Seq<char>) -> bool {
    forall|i: int| 0 <= i < s.len() ==> #[trigger] is_lower_hex_digit(s[i])
}

/// The bytes that hexadecimal text stands for: each pair of digits is one
/// byte, high nibble first.
pub open spec fn decode_hex(s: Seq<char>) -> Seq<u8> {
    Seq::new(s.len() / 2, |i: int| (hex_value(s[2 * i]) * 16 + hex_value(s[2 * i + 1])) as u8)
}

/// The canonical text of some bytes: two lowercase digits per byte, high
/// nibble first, with no prefix or separator.
pub open spec fn encode_hex(b: Seq<u8>) -> Seq<char> {
    Seq::new(
        2 * b.len(),
        |i: int|
            if i % 2 == 0 {
                lower_digit(b[i / 2] as int / 16)
            } else {
                lower_digit(b[i / 2] as int % 16)
            },
    )
}

/// A character with an uppercase letter `A` to `F` made lowercase.
pub open spec fn fold_case(c: char) -> char {
    if 'A' <= c && c <= 'F' {
        (c as int - 'A' as int + 'a' as int) as char
    } else {
        c
    }
}

/// Whether two texts are the same up to the case of the letters `A` to `F`.
pub open spec fn same_up_to_case(s: Seq<char>, t: Seq<char>) -> bool {
    s.len() == t.len() && forall|i: int|
        0 <= i < s.len() ==> #[trigger] fold_case(s[i]) == #[trigger] fold_case(t[i])
}

proof fn lemma_fold_case(c: char, d: char)
    requires
        fold_case(c) == fold_case(d),
    ensures
        is_hex_digit(c) == is_hex_digit(d),
        hex_value(c) == hex_value(d),
{
}

proof fn lemma_lower_digit(n: int)
    requires
        0 <= n < 16,
    ensures
        is_lower_hex_digit(lower_digit(n)),
        is_hex_digit(lower_digit(n)),
        hex_value(lower_digit(n)) == n,
{
}

/// The canonical text of any bytes is lowercase, two digits per byte, and
/// decodes.
pub proof fn lemma_encode_canonical(b: Seq<u8>)
    ensures
        encode_hex(b).len() == 2 * b.len(),
        is_lower_hex(encode_hex(b)),
        is_hex(encode_hex(b)),
{
    let e = encode_hex(b);
    assert forall|i: int| 0 <= i < e.len() implies is_lower_hex_digit(#[trigger] e[i])
        && is_hex_digit(e[i]) by {
        lemma_lower_digit(b[i / 2] as int / 16);
        lemma_lower_digit(b[i / 2] as int % 16);
    }
}

/// Decoding the canonical text of some bytes gives back exactly those bytes.
pub proof fn lemma_decode_encode(b: Seq<u8>)
    ensures
        decode_hex(encode_hex(b)) == b,
{
    let e = encode_hex(b);
    let d = decode_hex(e);
    assert forall|k: int| 0 <= k < b.len() implies #[trigger] d[k] == b[k] by {
        let v = b[k] as int;
        assert((2 * k) / 2 == k && (2 * k) % 2 == 0);
        assert((2 * k + 1) / 2 == k && (2 * k + 1) % 2 == 1);
        lemma_lower_digit(v / 16);
        lemma_lower_digit(v % 16);
        assert(e[2 * k] == lower_digit(v / 16));
        assert(e[2 * k + 1] == lower_digit(v % 16));
        assert((v / 16) * 16 + v % 16 == v);
    }
    assert(d =~= b);
}

/// Decoding ignores the case of letters: texts with the same digits up to
/// case are accepted alike and decode to the same bytes.
pub proof fn lemma_decode_ignores_case(s: Seq<char>, t: Seq<char>)
    requires
        same_up_to_case(s, t),
    ensures
        is_hex(s) == is_hex(t),
        decode_hex(s) == decode_hex(t),
{
    assert forall|i: int| 0 <= i < s.len() implies #[trigger] is_hex_digit(s[i]) == is_hex_digit(
        t[i]) && hex_value(s[i]) == hex_value(t[i]) by {
        lemma_fold_case(s[i], t[i]);
    }
    if is_hex(s) {
        assert forall|i: int| 0 <= i < t.len() implies #[trigger] is_hex_digit(t[i]) by {
            assert(is_hex_digit(s[i]));
        }
    }
    if is_hex(t) {
        assert forall|i: int| 0 <= i < s.len() implies #[trigger] is_hex_digit(s[i]) by {
            assert(is_hex_digit(s[i]) == is_hex_digit(t[i]));
        }
    }
    let ds = decode_hex(s);
    let dt = decode_hex(t);
    assert forall|k: int| 0 <= k < ds.len() implies #[trigger] ds[k] == dt[k] by {
        assert(is_hex_digit(s[2 * k]) == is_hex_digit(t[2 * k]));
        assert(is_hex_digit(s[2 * k + 1]) == is_hex_digit(t[2 * k + 1]));
    }
    assert(ds =~= dt);
}

/// Relies on hex::encode: two lowercase digits per byte, high nibble first.
#[verifier::external_body]
pub(crate) fn hex_encode(b: &[u8]) -> (r: String)
    ensures
        r@ == encode_hex(b@),
{
    hex::encode(b)
}

/// The error type of hex::decode, carried only as far as the caller that
/// maps it to a parse error.
#[verifier::external_type_specification]
#[verifier::external_body]
pub struct ExFromHexError(hex::FromHexError);

/// Relies on hex::decode: it accepts exactly the even-length strings of
/// digits of either case, and reads each pair as one byte, high nibble first.
#[verifier::external_body]
pub(crate) fn hex_decode(s: &str) -> (r: Result<Vec<u8>, hex::FromHexError>)
    ensures
        r is Ok <==> is_hex(s@),
        r is Ok ==> r->Ok_0@ == decode_hex(s@),
{
    hex::decode(s)
}

} // verus!
