//! Text and bytes: UTF-8, letter case and base64.

use crate::text::{chars_of, text_of};
use vstd::prelude::*;
use vstd::slice::slice_subrange;
use vstd::utf8::*;

verus! {

/// The text that `String::from_utf8_lossy` makes of bytes.
pub uninterp spec fn utf8_lossy(bytes: Seq<u8>) -> Seq<char>;

/// Calls `String::from_utf8_lossy`. Bytes that are UTF-8 become the text that
/// they encode; what the replacement characters for other bytes amount to is
/// left to the name `utf8_lossy`.
#[verifier::external_body]
pub(crate) fn from_utf8_lossy(bytes: &[u8]) -> (r: String)
    ensures
        r@ == utf8_lossy(bytes@),
        valid_utf8(bytes@) ==> r@ == decode_utf8(bytes@),
{
    String::from_utf8_lossy(bytes).into_owned()
}

/// The text that `str::to_lowercase` makes of a text.
pub uninterp spec fn lowercased(s: Seq<char>) -> Seq<char>;

/// Calls `str::to_lowercase`, which maps a text to lower case by Unicode's
/// rules.
#[verifier::external_body]
pub(crate) fn to_lowercase(s: &str) -> (r: String)
    ensures
        r@ == lowercased(s@),
{
    s.to_lowercase()
}

/// The letter that stands for six bits in base64.
pub open spec fn base64_letter(n: int) -> char {
    if n < 26 {
        ('A' as int + n) as char
    } else if n < 52 {
        ('a' as int + n - 26) as char
    } else if n < 62 {
        ('0' as int + n - 52) as char
    } else if n == 62 {
        '+'
    } else {
        '/'
    }
}

/// The four letters that stand for three bytes in base64.
pub open spec fn base64_letters(a: u8, b: u8, c: u8) -> Seq<char> {
    let n = a * 65536 + b * 256 + c;
    seq![
        base64_letter(n / 262144),
        base64_letter(n / 4096 % 64),
        base64_letter(n / 64 % 64),
        base64_letter(n % 64),
    ]
}

/// Bytes as base64, in the standard alphabet: four letters for each three bytes.
/// For one or two bytes at the end, the letters that hold nothing of them are
/// padding.
pub open spec fn base64_standard(bytes: Seq<u8>) -> Seq<char>
    decreases bytes.len(),
{
    if bytes.len() == 0 {
        seq![]
    } else if bytes.len() == 1 {
        base64_letters(bytes[0], 0, 0).take(2) + seq!['=', '=']
    } else if bytes.len() == 2 {
        base64_letters(bytes[0], bytes[1], 0).take(3) + seq!['=']
    } else {
        base64_letters(bytes[0], bytes[1], bytes[2]) + base64_standard(bytes.skip(3))
    }
}

/// The six bits that a letter of base64 stands for. Padding stands for none.
pub open spec fn base64_value(c: char) -> int {
    if 'A' <= c && c <= 'Z' {
        c as int - 'A' as int
    } else if 'a' <= c && c <= 'z' {
        c as int - 'a' as int + 26
    } else if '0' <= c && c <= '9' {
        c as int - '0' as int + 52
    } else if c == '+' {
        62
    } else if c == '/' {
        63
    } else {
        0
    }
}

/// The three bytes that the first four letters of base64 stand for.
pub open spec fn base64_three(s: Seq<char>) -> Seq<u8> {
    let n = base64_value(s[0]) * 262144 + base64_value(s[1]) * 4096 + base64_value(s[2]) * 64
        + base64_value(s[3]);
    seq![(n / 65536) as u8, (n / 256 % 256) as u8, (n % 256) as u8]
}

/// The bytes that base64 with padding stands for.
pub open spec fn base64_bytes(s: Seq<char>) -> Seq<u8>
    decreases s.len(),
{
    if s.len() < 4 {
        seq![]
    } else if s[2] == '=' {
        base64_three(s).take(1) + base64_bytes(s.skip(4))
    } else if s[3] == '=' {
        base64_three(s).take(2) + base64_bytes(s.skip(4))
    } else {
        base64_three(s) + base64_bytes(s.skip(4))
    }
}

proof fn lemma_base64_letter(n: int)
    requires
        0 <= n < 64,
    ensures
        base64_value(base64_letter(n)) == n,
        base64_letter(n) != '=',
{
}

proof fn lemma_base64_sum(n: int)
    requires
        0 <= n < 16777216,
    ensures
        n / 262144 * 262144 + n / 4096 % 64 * 4096 + n / 64 % 64 * 64 + n % 64 == n,
        0 <= n / 262144 < 64,
{
    let x = n / 64;
    let y = x / 64;
    assert(n / 4096 == y);
    assert(n / 262144 == y / 64);
}

proof fn lemma_base64_split(a: u8, b: u8, c: u8)
    ensures
        ({
            let n = a * 65536 + b * 256 + c;
            &&& 0 <= n < 16777216
            &&& n / 65536 == a
            &&& n / 256 % 256 == b
            &&& n % 256 == c
            &&& b == 0 && c == 0 ==> n / 64 % 64 == 0
            &&& c == 0 ==> n % 64 == 0
        }),
{
}

proof fn lemma_base64_letters(a: u8, b: u8, c: u8)
    ensures
        ({
            let letters = base64_letters(a, b, c);
            &&& base64_three(letters) =~= seq![a, b, c]
            &&& letters[2] != '=' && letters[3] != '='
            &&& b == 0 && c == 0 ==> base64_value(letters[2]) == base64_value('=')
            &&& c == 0 ==> base64_value(letters[3]) == base64_value('=')
        }),
{
    let n = a * 65536 + b * 256 + c;
    lemma_base64_split(a, b, c);
    lemma_base64_sum(n);
    lemma_base64_letter(n / 262144);
    lemma_base64_letter(n / 4096 % 64);
    lemma_base64_letter(n / 64 % 64);
    lemma_base64_letter(n % 64);
}

proof fn lemma_base64_three(s: Seq<char>, t: Seq<char>)
    requires
        forall|i: int| 0 <= i < 4 ==> base64_value(#[trigger] s[i]) == base64_value(t[i]),
    ensures
        base64_three(s) == base64_three(t),
{
    assert(base64_value(s[0]) == base64_value(t[0]));
    assert(base64_value(s[1]) == base64_value(t[1]));
    assert(base64_value(s[2]) == base64_value(t[2]));
    assert(base64_value(s[3]) == base64_value(t[3]));
}

proof fn lemma_base64_one(a: u8)
    ensures
        ({
            let s = base64_letters(a, 0, 0).take(2) + seq!['=', '='];
            base64_three(s) == seq![a, 0u8, 0u8] && s[2] == '=' && s.len() == 4
        }),
{
    let letters = base64_letters(a, 0, 0);
    lemma_base64_letters(a, 0, 0);
    lemma_base64_three(letters.take(2) + seq!['=', '='], letters);
}

proof fn lemma_base64_two(a: u8, b: u8)
    ensures
        ({
            let s = base64_letters(a, b, 0).take(3) + seq!['='];
            base64_three(s) == seq![a, b, 0u8] && s[2] != '=' && s[3] == '=' && s.len() == 4
        }),
{
    let letters = base64_letters(a, b, 0);
    lemma_base64_letters(a, b, 0);
    lemma_base64_three(letters.take(3) + seq!['='], letters);
}

/// Base64 stands for the bytes that it was made of.
pub proof fn base64_keeps_the_bytes(bytes: Seq<u8>)
    ensures
        base64_bytes(base64_standard(bytes)) == bytes,
    decreases bytes.len(),
{
    let s = base64_standard(bytes);
    assert(base64_bytes(seq![]) =~= seq![]);
    if bytes.len() == 1 {
        lemma_base64_one(bytes[0]);
        assert(s.skip(4) =~= seq![]);
        assert(base64_three(s).take(1) =~= bytes);
    } else if bytes.len() == 2 {
        lemma_base64_two(bytes[0], bytes[1]);
        assert(s.skip(4) =~= seq![]);
        assert(base64_three(s).take(2) =~= bytes);
    } else if bytes.len() > 2 {
        let letters = base64_letters(bytes[0], bytes[1], bytes[2]);
        lemma_base64_letters(bytes[0], bytes[1], bytes[2]);
        lemma_base64_three(s, letters);
        base64_keeps_the_bytes(bytes.skip(3));
        assert(s.skip(4) =~= base64_standard(bytes.skip(3)));
    }
    assert(base64_bytes(s) =~= bytes);
}

/// Calls `base64::Engine::encode` of the engine
/// `base64::engine::general_purpose::STANDARD`, which writes base64 with padding,
/// in the standard alphabet. The call panics where the length of the text does
/// not fit in memory, so the bytes are bounded here.
#[verifier::external_body]
pub(crate) fn base64_encode(bytes: &[u8]) -> (r: String)
    requires
        bytes@.len() <= usize::MAX / 4,
    ensures
        r@ == base64_standard(bytes@),
{
    base64::Engine::encode(&base64::engine::general_purpose::STANDARD, bytes)
}

/// The media type that `mime_guess` puts first for a file name extension.
pub uninterp spec fn media_type_of_extension(ext: Seq<char>) -> Option<Seq<char>>;

/// Calls `mime_guess::from_ext` and takes the first guess of it. An empty
/// extension has none.
#[verifier::external_body]
pub(crate) fn guess_media_type(ext: &str) -> (r: Option<String>)
    ensures
        r.deep_view() == media_type_of_extension(ext@),
        ext@.len() == 0 ==> r is None,
{
    mime_guess::from_ext(ext).first_raw().map(str::to_owned)
}

/// The number of bytes that UTF-8 gives to a character.
pub open spec fn utf8_width(c: char) -> nat {
    encode_scalar(c as u32).len()
}

/// The number of bytes that UTF-8 gives to a character.
pub fn char_width(c: char) -> (r: usize)
    ensures
        r == utf8_width(c),
        1 <= r <= 4,
{
    let n: u32 = c as u32;
    if n < 0x80 {
        1
    } else if n < 0x800 {
        2
    } else if n < 0x10000 {
        3
    } else {
        4
    }
}

/// What is left of `s` behind its first `n` bytes of UTF-8, if a character
/// ends there.
pub open spec fn skip_bytes(s: Seq<char>, n: nat) -> Option<Seq<char>>
    decreases s.len(),
{
    if n == 0 {
        Some(s)
    } else if s.len() == 0 || utf8_width(s[0]) > n {
        None
    } else {
        skip_bytes(s.drop_first(), (n - utf8_width(s[0])) as nat)
    }
}

/// What is left of `s` behind its first `n` bytes of UTF-8, if a character
/// ends there.
pub fn after_bytes(s: &str, n: usize) -> (r: Option<String>)
    ensures
        r.deep_view() == skip_bytes(s@, n as nat),
{
    let cs = chars_of(s);
    let mut at: usize = 0;
    let mut left: usize = n;
    assert(cs@.skip(0) =~= cs@);
    while left > 0
        invariant
            cs@ == s@,
            at <= cs@.len(),
            skip_bytes(s@, n as nat) == skip_bytes(cs@.skip(at as int), left as nat),
        decreases left,
    {
        if at == cs.len() {
            return None;
        }
        let width: usize = char_width(cs[at]);
        if width > left {
            return None;
        }
        assert(cs@.skip(at as int).drop_first() =~= cs@.skip(at + 1));
        at = at + 1;
        left = left - width;
    }
    let rest = text_of(slice_subrange(cs.as_slice(), at, cs.len()));
    assert(rest@ =~= cs@.skip(at as int));
    Some(rest)
}

} // verus!
