//! Text helpers: UTF-8 decoding of byte buffers and ASCII case folding.

use vstd::prelude::*;
use vstd::utf8::*;

verus! {

/// Where and how a byte buffer stops being valid UTF-8, as `std::str::Utf8Error` reports it.
#[derive(Debug, Clone, Copy)]
pub struct Utf8Failure {
    /// Length of the longest prefix that is valid UTF-8.
    pub valid_up_to: usize,
    /// Length of the invalid byte sequence after that prefix, or `None` when the input ends
    /// in the middle of an encoded character.
    pub error_len: Option<usize>,
}

/// The length of the invalid sequence that `std::str::Utf8Error::error_len` reports for the
/// given (invalid) input.
pub uninterp spec fn utf8_error_len(bytes: Seq<u8>) -> Option<usize>;

/// Is `n` the length of the longest valid UTF-8 prefix of `bytes`?
pub open spec fn is_valid_up_to(bytes: Seq<u8>, n: int) -> bool {
    &&& 0 <= n <= bytes.len()
    &&& valid_utf8(bytes.take(n))
    &&& forall|i: int| n < i <= bytes.len() ==> !#[trigger] valid_utf8(bytes.take(i))
}

/// The length of the longest valid UTF-8 prefix of `bytes`.
pub open spec fn valid_up_to(bytes: Seq<u8>) -> int {
    choose|n: int| is_valid_up_to(bytes, n)
}

/// The longest prefix length is unique, so any witness is the chosen one.
pub proof fn lemma_valid_up_to_unique(bytes: Seq<u8>, n: int)
    requires
        is_valid_up_to(bytes, n),
    ensures
        valid_up_to(bytes) == n,
{
    let m = valid_up_to(bytes);
    assert(is_valid_up_to(bytes, m));
    if m < n {
        assert(!valid_utf8(bytes.take(n)));
    } else if n < m {
        assert(!valid_utf8(bytes.take(m)));
    }
}

/// `String::from_utf8` (std): on success the string holds the decoded characters; on failure
/// the position and length of the error are those that `Utf8Error::valid_up_to` and
/// `Utf8Error::error_len` document: the longest valid prefix, and the length (1 to 3) of the
/// invalid sequence after it, or `None` at an unexpected end of input.
#[verifier::external_body]
pub(crate) fn string_from_utf8(bytes: Vec<u8>) -> (r: Result<String, Utf8Failure>)
    ensures
        r is Ok <==> valid_utf8(bytes@),
        r matches Ok(s) ==> s@ == decode_utf8(bytes@),
        r matches Err(f) ==> {
            &&& f.valid_up_to < bytes@.len()
            &&& is_valid_up_to(bytes@, f.valid_up_to as int)
            &&& f.error_len == utf8_error_len(bytes@)
            &&& f.error_len matches Some(l) ==> 1 <= l <= 3 && f.valid_up_to + l <= bytes@.len()
        },
{
    match String::from_utf8(bytes) {
        Ok(s) => Ok(s),
        Err(e) => Err(
            Utf8Failure {
                valid_up_to: e.utf8_error().valid_up_to(),
                error_len: e.utf8_error().error_len(),
            },
        ),
    }
}

/// ASCII lower case of a character: `A..=Z` map to `a..=z`, every other character is kept.
pub open spec fn ascii_lower(c: char) -> char {
    if 'A' <= c && c <= 'Z' {
        ((c as u32) + 32) as char
    } else {
        c
    }
}

/// `str::to_ascii_lowercase` (std): each ASCII upper-case letter replaced by its lower-case
/// counterpart, every other character unchanged.
#[verifier::external_body]
pub(crate) fn to_ascii_lowercase(s: &str) -> (r: String)
    ensures
        r@ == s@.map_values(|c: char| ascii_lower(c)),
{
    s.to_ascii_lowercase()
}

/// Does `s` start with `prefix`, character by character?
pub fn starts_with(s: &str, prefix: &str) -> (r: bool)
    ensures
        r == (prefix@.len() <= s@.len() && s@.take(prefix@.len() as int) == prefix@),
{
    let n: usize = prefix.unicode_len();
    let m: usize = s.unicode_len();
    if n > m {
        return false;
    }
    let mut i: usize = 0;
    while i < n
        invariant
            n == prefix@.len(),
            m == s@.len(),
            n <= m,
            i <= n,
            forall|j: int| 0 <= j < i ==> s@[j] == prefix@[j],
        decreases n - i,
    {
        if s.get_char(i) != prefix.get_char(i) {
            assert(s@.take(n as int)[i as int] != prefix@[i as int]);
            return false;
        }
        i = i + 1;
    }
    assert(s@.take(n as int) =~= prefix@);
    true
}

/// The character of a decimal digit.
pub open spec fn digit_char(d: nat) -> char {
    if d == 0 { '0' } else if d == 1 { '1' } else if d == 2 { '2' } else if d == 3 { '3' } else if d == 4 {
        '4'
    } else if d == 5 { '5' } else if d == 6 { '6' } else if d == 7 { '7' } else if d == 8 { '8' } else { '9' }
}

/// Decimal notation of a number, without leading zeros.
pub open spec fn decimal(n: nat) -> Seq<char>
    decreases n,
{
    if n < 10 {
        seq![digit_char(n)]
    } else {
        decimal(n / 10) + seq![digit_char(n % 10)]
    }
}

/// The one-character string of a decimal digit.
fn digit_str(d: usize) -> (s: &'static str)
    requires
        d < 10,
    ensures
        s@ == seq![digit_char(d as nat)],
{
    proof {
        reveal_strlit("0");
        reveal_strlit("1");
        reveal_strlit("2");
        reveal_strlit("3");
        reveal_strlit("4");
        reveal_strlit("5");
        reveal_strlit("6");
        reveal_strlit("7");
        reveal_strlit("8");
        reveal_strlit("9");
    }
    let s = if d == 0 { "0" } else if d == 1 { "1" } else if d == 2 { "2" } else if d == 3 { "3" } else if d == 4 {
        "4"
    } else if d == 5 { "5" } else if d == 6 { "6" } else if d == 7 { "7" } else if d == 8 { "8" } else { "9" };
    assert(s@ =~= seq![digit_char(d as nat)]);
    s
}

/// Decimal notation of a number, as `usize`'s `Display` writes it.
pub fn decimal_string(n: usize) -> (s: String)
    ensures
        s@ == decimal(n as nat),
    decreases n,
{
    if n < 10 {
        String::from_str(digit_str(n))
    } else {
        let mut s = decimal_string(n / 10);
        s.append(digit_str(n % 10));
        s
    }
}

} // verus!
