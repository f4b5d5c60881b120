//! Text pieces of the canonical block encoding: decimal numerals, quoted JSON
//! strings, and the UTF-8 bytes of a sequence of characters.
use vstd::prelude::*;
use vstd::utf8::encode_utf8;

verus! {

/// The JSON text (quotes and escapes included) that serde_json writes for a string.
pub uninterp spec fn json_string_of(s: Seq<char>) -> Seq<char>;

/// The ASCII digit for `d < 10`.
pub open spec fn digit_char(d: nat) -> char {
    if d == 0 { '0' }
    else if d == 1 { '1' }
    else if d == 2 { '2' }
    else if d == 3 { '3' }
    else if d == 4 { '4' }
    else if d == 5 { '5' }
    else if d == 6 { '6' }
    else if d == 7 { '7' }
    else if d == 8 { '8' }
    else { '9' }
}

/// The decimal numeral of `n`, without sign or leading zeros.
pub open spec fn decimal(n: nat) -> Seq<char>
    decreases n,
{
    if n < 10 {
        seq![digit_char(n)]
    } else {
        decimal(n / 10).push(digit_char(n % 10))
    }
}

/// UTF-8 encoding distributes over concatenation.
pub proof fn lemma_encode_utf8_concat(a: Seq<char>, b: Seq<char>)
    ensures
        encode_utf8(a + b) == encode_utf8(a) + encode_utf8(b),
    decreases a.len(),
{
    if a.len() == 0 {
        assert(a + b =~= b);
        assert(encode_utf8(a) + encode_utf8(b) =~= encode_utf8(b));
    } else {
        assert((a + b).drop_first() =~= a.drop_first() + b);
        assert((a + b)[0] == a[0]);
        lemma_encode_utf8_concat(a.drop_first(), b);
        assert(encode_utf8(a + b) =~= encode_utf8(a) + encode_utf8(b));
    }
}

proof fn lemma_encode_digit(d: nat)
    requires
        d < 10,
    ensures
        encode_utf8(seq![digit_char(d)]) == seq![(48 + d) as u8],
{
    let s = seq![digit_char(d)];
    assert(vstd::utf8::is_ascii_chars(s));
    vstd::utf8::is_ascii_chars_encode_utf8(s);
    assert(encode_utf8(s) =~= seq![(48 + d) as u8]);
}

/// Appends the UTF-8 bytes of the decimal numeral of `n`.
pub fn push_decimal(out: &mut Vec<u8>, n: u64)
    ensures
        final(out)@ == old(out)@ + encode_utf8(decimal(n as nat)),
    decreases n,
{
    if n >= 10 {
        push_decimal(out, n / 10);
    }
    let d: u64 = n % 10;
    out.push((48 + d) as u8);
    proof {
        lemma_encode_digit(d as nat);
        if n >= 10 {
            lemma_encode_utf8_concat(decimal((n / 10) as nat), seq![digit_char(d as nat)]);
            assert(decimal(n as nat) =~= decimal((n / 10) as nat) + seq![digit_char(d as nat)]);
        }
    }
    assert(final(out)@ =~= old(out)@ + encode_utf8(decimal(n as nat)));
}

/// Appends the UTF-8 bytes of `s`.
pub fn push_str(out: &mut Vec<u8>, s: &str)
    ensures
        final(out)@ == old(out)@ + encode_utf8(s@),
{
    out.extend_from_slice(s.as_bytes());
    assert(final(out)@ =~= old(out)@ + encode_utf8(s@));
}

/// Relies on serde_json::to_string on a `str`: the quoted, escaped JSON string.
/// Writing a string into memory cannot fail, so the `unwrap` never panics.
#[verifier::external_body]
pub(crate) fn json_string(s: &str) -> (r: String)
    ensures
        r@ == json_string_of(s@),
{
    serde_json::to_string(s).unwrap()
}

} // verus!
