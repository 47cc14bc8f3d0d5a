//! Text helpers: ASCII strings, decimal rendering, percent-encoding and
//! string comparison.
use vstd::prelude::*;
use vstd::utf8::*;

verus! {

/// The characters whose code points are the given ASCII bytes.
pub open spec fn ascii_chars(b: Seq<u8>) -> Seq<char> {
    b.map_values(|x: u8| x as char)
}

/// Every byte is below 128.
pub open spec fn all_ascii(b: Seq<u8>) -> bool {
    forall|i: int| 0 <= i < b.len() ==> #[trigger] b[i] < 128
}

/// Relies on `String::from_utf8`: ASCII bytes are valid UTF-8 and each
/// byte decodes to the character with the same code point.
#[verifier::external_body]
fn string_from_ascii(b: Vec<u8>) -> (r: String)
    requires
        all_ascii(b@),
    ensures
        r@ == ascii_chars(b@),
{
    String::from_utf8(b).unwrap_or_default()
}

/// The decimal digits of `n`, most significant first, without leading zeros.
pub open spec fn decimal(n: nat) -> Seq<u8>
    decreases n,
{
    if n < 10 {
        seq![(48 + n) as u8]
    } else {
        decimal(n / 10).push((48 + n % 10) as u8)
    }
}

/// The decimal text of an integer, with a leading `-` when it is negative.
pub open spec fn int_text(n: int) -> Seq<char> {
    if n < 0 {
        seq!['-'] + ascii_chars(decimal((-n) as nat))
    } else {
        ascii_chars(decimal(n as nat))
    }
}

fn push_decimal(out: &mut Vec<u8>, n: u64)
    ensures
        final(out)@ == old(out)@ + decimal(n as nat),
    decreases n,
{
    if n >= 10 {
        push_decimal(out, n / 10);
    }
    out.push((48 + n % 10) as u8);
    proof {
        assert(final(out)@ =~= old(out)@ + decimal(n as nat));
    }
}

proof fn lemma_decimal_ascii(n: nat)
    ensures
        all_ascii(decimal(n)),
    decreases n,
{
    if n >= 10 {
        lemma_decimal_ascii(n / 10);
    }
}

/// The decimal text of `n`.
pub fn int_to_text(n: i64) -> (r: String)
    ensures
        r@ == int_text(n as int),
{
    let mut digits: Vec<u8> = Vec::new();
    if n < 0 {
        let m: u64 = (0i128 - n as i128) as u64;
        digits.push(45u8);
        push_decimal(&mut digits, m);
        proof {
            lemma_decimal_ascii(m as nat);
            assert(digits@ =~= seq![45u8] + decimal(m as nat));
            assert(ascii_chars(digits@) =~= seq!['-'] + ascii_chars(decimal(m as nat)));
        }
        string_from_ascii(digits)
    } else {
        push_decimal(&mut digits, n as u64);
        proof {
            lemma_decimal_ascii(n as nat);
            assert(digits@ =~= decimal(n as nat));
        }
        string_from_ascii(digits)
    }
}

/// Bytes that percent-encoding leaves as they are: letters, digits and `-._~`.
pub open spec fn is_unreserved(b: u8) -> bool {
    (48 <= b <= 57) || (65 <= b <= 90) || (97 <= b <= 122) || b == 45 || b == 46 || b == 95
        || b == 126
}

/// The upper-case hexadecimal digit for a value below 16.
pub open spec fn hex_digit(n: u8) -> u8 {
    if n < 10 {
        (48 + n) as u8
    } else {
        (55 + n) as u8
    }
}

/// The value of an upper-case hexadecimal digit.
pub open spec fn hex_value(d: u8) -> u8 {
    if d <= 57 {
        (d - 48) as u8
    } else {
        (d - 55) as u8
    }
}

/// One byte, percent-encoded.
pub open spec fn encode_byte(b: u8) -> Seq<u8> {
    if is_unreserved(b) {
        seq![b]
    } else {
        seq![37u8, hex_digit(b / 16), hex_digit(b % 16)]
    }
}

/// A byte string, percent-encoded byte by byte.
pub open spec fn percent_encode(b: Seq<u8>) -> Seq<u8>
    decreases b.len(),
{
    if b.len() == 0 {
        Seq::empty()
    } else {
        encode_byte(b[0]) + percent_encode(b.drop_first())
    }
}

/// Percent-decoding: `%` and two hexadecimal digits stand for one byte.
pub open spec fn percent_decode(e: Seq<u8>) -> Seq<u8>
    decreases e.len(),
{
    if e.len() == 0 {
        Seq::empty()
    } else if e[0] == 37 && e.len() >= 3 {
        seq![(hex_value(e[1]) * 16 + hex_value(e[2])) as u8] + percent_decode(e.subrange(3, e.len() as int))
    } else {
        seq![e[0]] + percent_decode(e.drop_first())
    }
}

/// The percent-encoding of the UTF-8 bytes of a text.
pub open spec fn url_encoded(s: Seq<char>) -> Seq<char> {
    ascii_chars(percent_encode(encode_utf8(s)))
}

/// A byte that can stand in percent-encoded text: an unreserved byte or `%`.
pub open spec fn is_encoded_byte(b: u8) -> bool {
    is_unreserved(b) || b == 37
}

proof fn lemma_encode_push(a: Seq<u8>, x: u8)
    ensures
        percent_encode(a.push(x)) == percent_encode(a) + encode_byte(x),
    decreases a.len(),
{
    if a.len() == 0 {
        assert(a.push(x).drop_first() =~= Seq::<u8>::empty());
        assert(percent_encode(Seq::<u8>::empty()) == Seq::<u8>::empty());
        assert(percent_encode(a.push(x)) =~= encode_byte(x) + Seq::<u8>::empty());
        assert(percent_encode(a.push(x)) =~= percent_encode(a) + encode_byte(x));
    } else {
        assert(a.push(x).drop_first() =~= a.drop_first().push(x));
        lemma_encode_push(a.drop_first(), x);
        assert(percent_encode(a.push(x)) =~= percent_encode(a) + encode_byte(x));
    }
}

proof fn lemma_encode_byte_round_trip(x: u8, rest: Seq<u8>)
    ensures
        percent_decode(encode_byte(x) + rest) == seq![x] + percent_decode(rest),
{
    let e = encode_byte(x) + rest;
    if is_unreserved(x) {
        assert(e.drop_first() =~= rest);
    } else {
        assert(e.subrange(3, e.len() as int) =~= rest);
        assert(hex_value(hex_digit(x / 16)) * 16 + hex_value(hex_digit(x % 16)) == x)
            by (nonlinear_arith);
    }
}

/// Decoding the percent-encoding of a byte string gives the bytes back.
pub proof fn lemma_percent_round_trip(b: Seq<u8>)
    ensures
        percent_decode(percent_encode(b)) == b,
    decreases b.len(),
{
    if b.len() > 0 {
        lemma_encode_byte_round_trip(b[0], percent_encode(b.drop_first()));
        lemma_percent_round_trip(b.drop_first());
        assert(seq![b[0]] + b.drop_first() =~= b);
    }
}

/// Decoding an encoded text, then reading its bytes as UTF-8, gives the text back.
pub proof fn lemma_url_encoded_round_trip(s: Seq<char>)
    ensures
        decode_utf8(percent_decode(percent_encode(encode_utf8(s)))) == s,
{
    lemma_percent_round_trip(encode_utf8(s));
    encode_utf8_decode_utf8(s);
}

/// Percent-encoded bytes are unreserved bytes and `%` only.
pub proof fn lemma_encoded_bytes(b: Seq<u8>)
    ensures
        forall|i: int| 0 <= i < percent_encode(b).len() ==> is_encoded_byte(#[trigger] percent_encode(b)[i]),
    decreases b.len(),
{
    if b.len() > 0 {
        lemma_encoded_bytes(b.drop_first());
        let x = b[0];
        assert(x / 16 < 16 && x % 16 < 16);
        let e = encode_byte(x);
        assert forall|i: int| 0 <= i < e.len() implies is_encoded_byte(#[trigger] e[i]) by {}
        let r = percent_encode(b.drop_first());
        assert forall|i: int| 0 <= i < percent_encode(b).len() implies is_encoded_byte(#[trigger] percent_encode(b)[i]) by {
            if i >= e.len() {
                assert(percent_encode(b)[i] == r[i - e.len()]);
            }
        }
    }
}

fn hex_digit_exec(n: u8) -> (r: u8)
    requires
        n < 16,
    ensures
        r == hex_digit(n),
{
    if n < 10 {
        48 + n
    } else {
        55 + n
    }
}

fn is_unreserved_exec(b: u8) -> (r: bool)
    ensures
        r == is_unreserved(b),
{
    (48 <= b && b <= 57) || (65 <= b && b <= 90) || (97 <= b && b <= 122) || b == 45 || b == 46
        || b == 95 || b == 126
}

/// Percent-encodes the UTF-8 bytes of `s`: letters, digits and `-._~` stay,
/// every other byte becomes `%` and two upper-case hexadecimal digits.
pub fn urlencode(s: &str) -> (r: String)
    ensures
        r@ == url_encoded(s@),
{
    let bytes = s.as_bytes();
    let mut out: Vec<u8> = Vec::new();
    let mut i: usize = 0;
    proof {
        lemma_encoded_bytes(encode_utf8(s@));
        assert(bytes@.subrange(0, 0) =~= Seq::<u8>::empty());
    }
    while i < bytes.len()
        invariant
            i <= bytes@.len(),
            bytes@ == encode_utf8(s@),
            out@ == percent_encode(bytes@.subrange(0, i as int)),
        decreases bytes@.len() - i,
    {
        let b = bytes[i];
        if is_unreserved_exec(b) {
            out.push(b);
        } else {
            out.push(37u8);
            out.push(hex_digit_exec(b / 16));
            out.push(hex_digit_exec(b % 16));
        }
        proof {
            lemma_encode_push(bytes@.subrange(0, i as int), b);
            assert(bytes@.subrange(0, i + 1) =~= bytes@.subrange(0, i as int).push(b));
            assert(out@ =~= percent_encode(bytes@.subrange(0, i as int)) + encode_byte(b));
        }
        i = i + 1;
    }
    proof {
        assert(bytes@.subrange(0, i as int) =~= bytes@);
        assert forall|k: int| 0 <= k < out@.len() implies #[trigger] out@[k] < 128 by {
            assert(is_encoded_byte(out@[k]));
        }
    }
    string_from_ascii(out)
}

/// Whether two strings hold the same text.
pub fn str_eq(a: &str, b: &str) -> (r: bool)
    ensures
        r == (a@ == b@),
{
    let x = a.as_bytes();
    let y = b.as_bytes();
    proof {
        encode_utf8_decode_utf8(a@);
        encode_utf8_decode_utf8(b@);
    }
    if x.len() != y.len() {
        return false;
    }
    let mut i: usize = 0;
    while i < x.len()
        invariant
            i <= x@.len(),
            x@.len() == y@.len(),
            x@ == encode_utf8(a@),
            y@ == encode_utf8(b@),
            forall|k: int| 0 <= k < i ==> x@[k] == y@[k],
        decreases x@.len() - i,
    {
        if x[i] != y[i] {
            return false;
        }
        i = i + 1;
    }
    assert(x@ =~= y@);
    true
}

} // verus!
