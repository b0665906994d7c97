use vstd::prelude::*;
use vstd::utf8::{decode_utf8, encode_utf8, valid_utf8};

verus! {

broadcast use vstd::string::group_string_axioms;

/// Whether two byte slices hold the same bytes.
pub fn bytes_eq(a: &[u8], b: &[u8]) -> (r: bool)
    ensures
        r == (a@ == b@),
{
    if a.len() != b.len() {
        return false;
    }
    let mut i: usize = 0;
    while i < a.len()
        invariant
            a@.len() == b@.len(),
            0 <= i <= a@.len(),
            forall|j: int| 0 <= j < i ==> a@[j] == b@[j],
        decreases a@.len() - i,
    {
        if a[i] != b[i] {
            return false;
        }
        i = i + 1;
    }
    assert(a@ =~= b@);
    true
}

/// Whether two strings hold the same characters.
pub fn str_eq(a: &str, b: &str) -> (r: bool)
    ensures
        r == (a@ == b@),
{
    let r = bytes_eq(a.as_bytes(), b.as_bytes());
    proof {
        vstd::utf8::encode_utf8_decode_utf8(a@);
        vstd::utf8::encode_utf8_decode_utf8(b@);
    }
    r
}

/// An owned copy of `s`.
pub fn owned(s: &str) -> (r: String)
    ensures
        r@ == s@,
{
    s.to_string()
}

/// The UTF-8 bytes of a string.
pub fn utf8_bytes(s: &str) -> (r: &[u8])
    ensures
        r@ == encode_utf8(s@),
{
    s.as_bytes()
}

/// The UTF-8 encoding of two character sequences one after the other is the
/// encoding of the first followed by the encoding of the second.
pub(crate) proof fn lemma_encode_utf8_concat(a: Seq<char>, b: Seq<char>)
    ensures
        encode_utf8(a + b) == encode_utf8(a) + encode_utf8(b),
    decreases a.len(),
{
    if a.len() == 0 {
        assert(a + b =~= b);
        assert(encode_utf8(a) + encode_utf8(b) =~= encode_utf8(b));
    } else {
        assert((a + b).drop_first() =~= a.drop_first() + b);
        lemma_encode_utf8_concat(a.drop_first(), b);
        let first = vstd::utf8::encode_scalar(a[0] as u32);
        assert(first + (encode_utf8(a.drop_first()) + encode_utf8(b)) =~= (first + encode_utf8(
            a.drop_first(),
        )) + encode_utf8(b));
    }
}

/// The UTF-8 encoding of one ASCII character is its code as a single byte.
pub(crate) proof fn lemma_encode_ascii_char(c: u8)
    requires
        c < 128,
    ensures
        encode_utf8(seq![c as char]) == seq![c],
{
    let chars = seq![c as char];
    assert(vstd::utf8::is_ascii_chars(chars));
    vstd::utf8::is_ascii_chars_encode_utf8(chars);
    assert(chars[0] as u8 == c);
    assert(encode_utf8(chars) =~= seq![c]);
}

/// Appends the UTF-8 encoding of `s` to `buffer`, which holds the encoding of
/// `chars`.
pub(crate) fn push_text(buffer: &mut Vec<u8>, s: &str, Ghost(chars): Ghost<Seq<char>>)
    requires
        old(buffer)@ == encode_utf8(chars),
    ensures
        final(buffer)@ == encode_utf8(chars + s@),
{
    let bytes = utf8_bytes(s);
    let mut i: usize = 0;
    while i < bytes.len()
        invariant
            0 <= i <= bytes@.len(),
            bytes@ == encode_utf8(s@),
            buffer@ == old(buffer)@ + bytes@.subrange(0, i as int),
        decreases bytes@.len() - i,
    {
        buffer.push(bytes[i]);
        i = i + 1;
        assert(buffer@ =~= old(buffer)@ + bytes@.subrange(0, i as int));
    }
    assert(bytes@.subrange(0, bytes@.len() as int) =~= bytes@);
    proof {
        lemma_encode_utf8_concat(chars, s@);
    }
}

/// Appends one ASCII character, given by its code, to `buffer`, which holds
/// the encoding of `chars`.
pub(crate) fn push_ascii(buffer: &mut Vec<u8>, c: u8, Ghost(chars): Ghost<Seq<char>>)
    requires
        c < 128,
        old(buffer)@ == encode_utf8(chars),
    ensures
        final(buffer)@ == encode_utf8(chars.push(c as char)),
{
    proof {
        lemma_encode_ascii_char(c);
        lemma_encode_utf8_concat(chars, seq![c as char]);
        assert(chars + seq![c as char] =~= chars.push(c as char));
    }
    buffer.push(c);
    assert(buffer@ =~= old(buffer)@ + seq![c]);
}

/// The decimal digits of `n`, most significant first, without leading zeros.
pub open spec fn decimal_text(n: nat) -> Seq<char>
    decreases n,
{
    if n < 10 {
        seq![(48 + n) as char]
    } else {
        decimal_text(n / 10) + seq![(48 + n % 10) as char]
    }
}

/// Appends the decimal digits of `n` to `buffer`, which holds the encoding of
/// `chars`.
pub(crate) fn push_decimal(buffer: &mut Vec<u8>, n: u8, Ghost(chars): Ghost<Seq<char>>)
    requires
        old(buffer)@ == encode_utf8(chars),
    ensures
        final(buffer)@ == encode_utf8(chars + decimal_text(n as nat)),
{
    if n >= 100 {
        let hundreds = n / 100;
        let tens = (n / 10) % 10;
        let ones = n % 10;
        push_ascii(buffer, 48 + hundreds, Ghost(chars));
        push_ascii(buffer, 48 + tens, Ghost(chars.push((48 + hundreds) as char)));
        push_ascii(buffer, 48 + ones, Ghost(chars.push((48 + hundreds) as char).push((48 + tens) as char)));
        proof {
            assert((n / 10) as nat / 10 == n / 100);
            reveal_with_fuel(decimal_text, 3);
            assert(chars.push((48 + hundreds) as char).push((48 + tens) as char).push((48 + ones) as char)
                =~= chars + decimal_text(n as nat));
        }
    } else if n >= 10 {
        let tens = n / 10;
        let ones = n % 10;
        push_ascii(buffer, 48 + tens, Ghost(chars));
        push_ascii(buffer, 48 + ones, Ghost(chars.push((48 + tens) as char)));
        proof {
            reveal_with_fuel(decimal_text, 2);
            assert(chars.push((48 + tens) as char).push((48 + ones) as char) =~= chars + decimal_text(n as nat));
        }
    } else {
        push_ascii(buffer, 48 + n, Ghost(chars));
        proof {
            assert(chars.push((48 + n) as char) =~= chars + decimal_text(n as nat));
        }
    }
}

/// The string whose UTF-8 encoding is `bytes`, the encoding of `chars`.
pub(crate) fn text_of_encoding(bytes: &[u8], Ghost(chars): Ghost<Seq<char>>) -> (s: String)
    requires
        bytes@ == encode_utf8(chars),
    ensures
        s@ == chars,
{
    proof {
        vstd::utf8::encode_utf8_valid_utf8(chars);
        vstd::utf8::encode_utf8_decode_utf8(chars);
    }
    match utf8_to_string(bytes) {
        Ok(s) => s,
        Err(_) => vstd::pervasive::unreached(),
    }
}

/// The length of the longest prefix of `bytes` that is valid UTF-8, as
/// `std::str::Utf8Error::valid_up_to` reports it.
pub open spec fn utf8_valid_up_to(bytes: Seq<u8>, n: int) -> bool {
    &&& 0 <= n < bytes.len()
    &&& valid_utf8(bytes.subrange(0, n))
    &&& forall|m: int| n < m <= bytes.len() ==> !valid_utf8(#[trigger] bytes.subrange(0, m))
}

/// Decodes `bytes` as UTF-8 with `std::str::from_utf8`.
///
/// Claimed of std: the call succeeds exactly when the bytes are valid UTF-8,
/// and then the string holds the decoded characters; on failure the error's
/// `valid_up_to` is the length of the longest valid prefix.
#[verifier::external_body]
pub(crate) fn utf8_to_string(bytes: &[u8]) -> (r: Result<String, usize>)
    ensures
        r is Ok <==> valid_utf8(bytes@),
        r matches Ok(s) ==> s@ == decode_utf8(bytes@),
        r matches Err(n) ==> utf8_valid_up_to(bytes@, n as int),
{
    match std::str::from_utf8(bytes) {
        Ok(s) => Ok(s.to_owned()),
        Err(error) => Err(error.valid_up_to()),
    }
}

} // verus!
