//! Text helpers: decimal numbers, substring search, and what the library
//! relies on of the standard library's text functions.

use vstd::prelude::*;
use vstd::utf8::{decode_utf8, valid_utf8};

verus! {

/// The digit `d` as a character.
pub open spec fn digit_char(d: nat) -> char {
    if d == 0 {
        '0'
    } else if d == 1 {
        '1'
    } else if d == 2 {
        '2'
    } else if d == 3 {
        '3'
    } else if d == 4 {
        '4'
    } else if d == 5 {
        '5'
    } else if d == 6 {
        '6'
    } else if d == 7 {
        '7'
    } else if d == 8 {
        '8'
    } else {
        '9'
    }
}

/// A number in decimal, without leading zeros.
pub open spec fn decimal(n: nat) -> Seq<char>
    decreases n,
{
    if n < 10 {
        seq![digit_char(n)]
    } else {
        decimal(n / 10).push(digit_char(n % 10))
    }
}

/// `needle` occurs in `hay`, starting at `at`.
pub open spec fn occurs_at(hay: Seq<char>, needle: Seq<char>, at: int) -> bool {
    &&& 0 <= at
    &&& at + needle.len() <= hay.len()
    &&& hay.subrange(at, at + needle.len()) == needle
}

/// `needle` occurs somewhere in `hay`.
pub open spec fn contains(hay: Seq<char>, needle: Seq<char>) -> bool {
    exists|at: int| occurs_at(hay, needle, at)
}

/// The ASCII lower case of a character.
pub open spec fn ascii_lower(c: char) -> char {
    if 'A' <= c && c <= 'Z' {
        (c as u32 + 32) as char
    } else {
        c
    }
}

/// The lower case of a text: what `str::to_lowercase` returns.
pub uninterp spec fn lower_case(s: Seq<char>) -> Seq<char>;

/// The quoted, escaped form of a text: what `{:?}` prints.
pub uninterp spec fn quoted(s: Seq<char>) -> Seq<char>;

/// `str::to_lowercase`: the lower case of the text by Unicode's rules. On
/// ASCII text that is the ASCII lower case, character by character.
#[verifier::external_body]
pub(crate) fn to_lower_case(s: &str) -> (lower: String)
    ensures
        lower@ == lower_case(s@),
        (forall|i: int| 0 <= i < s@.len() ==> s@[i] <= '\x7f') ==> lower@ == s@.map_values(
            |c: char| ascii_lower(c),
        ),
{
    s.to_lowercase()
}

/// `{:?}` on a `str`: the text in double quotes, with escapes.
#[verifier::external_body]
pub(crate) fn quote(s: &str) -> (text: String)
    ensures
        text@ == quoted(s@),
{
    format!("{:?}", s)
}

/// What the standard library says of bytes that are not UTF-8: the text of
/// the error that `String::from_utf8` returns for them.
pub uninterp spec fn utf8_error_text(bytes: Seq<u8>) -> Seq<char>;

/// `String::from_utf8`: the text that the bytes encode, or, where they are
/// not valid UTF-8, the error's own text.
#[verifier::external_body]
pub(crate) fn text_from_utf8(bytes: Vec<u8>) -> (result: Result<String, String>)
    ensures
        match result {
            Ok(text) => valid_utf8(bytes@) && text@ == decode_utf8(bytes@),
            Err(detail) => !valid_utf8(bytes@) && detail@ == utf8_error_text(bytes@),
        },
{
    String::from_utf8(bytes).map_err(|e| format!("{}", e))
}

/// The characters of a text.
pub fn chars_of(s: &str) -> (chars: Vec<char>)
    ensures
        chars@ == s@,
{
    let mut chars: Vec<char> = Vec::new();
    for c in it: s.chars()
        invariant
            it.seq() == s@,
            chars@ == s@.take(it.index() as int),
    {
        chars.push(c);
        assert(s@.take(it.index() + 1) =~= s@.take(it.index() as int).push(c));
    }
    assert(s@.take(s@.len() as int) =~= s@);
    chars
}

/// Append one digit to a text.
fn append_digit(text: &mut String, d: u64)
    requires
        d < 10,
    ensures
        final(text)@ == old(text)@.push(digit_char(d as nat)),
{
    let digits: [&'static str; 10] = ["0", "1", "2", "3", "4", "5", "6", "7", "8", "9"];
    proof {
        reveal_strlit("0");
        reveal_strlit("1");
        reveal_strlit("2");
        reveal_strlit("3");
        reveal_strlit("4");
        reveal_strlit("5");
        reveal_strlit("6");
        reveal_strlit("7");
        reveal_strlit("8");
        reveal_strlit("9");
    }
    let ghost before = text@;
    text.append(digits[d as usize]);
    assert(digits@[d as int]@ =~= seq![digit_char(d as nat)]);
    assert(text@ =~= before.push(digit_char(d as nat)));
}

/// Append a number in decimal to a text.
pub fn append_decimal(text: &mut String, n: u64)
    ensures
        final(text)@ == old(text)@ + decimal(n as nat),
    decreases n,
{
    let ghost before = text@;
    if n >= 10 {
        append_decimal(text, n / 10);
        append_digit(text, n % 10);
        assert(text@ =~= before + decimal(n as nat));
    } else {
        append_digit(text, n);
        assert(text@ =~= before + decimal(n as nat));
    }
}

/// Whether `needle` occurs in `hay` at position `at`.
fn matches_at(hay: &Vec<char>, needle: &Vec<char>, at: usize) -> (found: bool)
    requires
        at + needle@.len() <= hay@.len(),
    ensures
        found == occurs_at(hay@, needle@, at as int),
{
    let mut k: usize = 0;
    let ghost window = hay@.subrange(at as int, at + needle@.len());
    while k < needle.len()
        invariant
            k <= needle@.len(),
            at + needle@.len() <= hay.len(),
            window == hay@.subrange(at as int, at + needle@.len()),
            forall|j: int| 0 <= j < k ==> window[j] == needle@[j],
        decreases needle.len() - k,
    {
        if hay[at + k] != needle[k] {
            assert(window[k as int] != needle@[k as int]);
            return false;
        }
        assert(window[k as int] == needle@[k as int]);
        k += 1;
    }
    assert(window =~= needle@);
    true
}

/// Whether `needle` occurs in `hay`.
pub fn contains_text(hay: &str, needle: &str) -> (found: bool)
    ensures
        found == contains(hay@, needle@),
{
    let hay_chars: Vec<char> = chars_of(hay);
    let needle_chars: Vec<char> = chars_of(needle);
    if needle_chars.len() > hay_chars.len() {
        assert forall|p: int| !occurs_at(hay@, needle@, p) by {}
        return false;
    }
    let last: usize = hay_chars.len() - needle_chars.len();
    let mut at: usize = 0;
    while at <= last
        invariant
            hay_chars@ == hay@,
            needle_chars@ == needle@,
            last + needle_chars@.len() == hay_chars@.len(),
            at <= last + 1,
            forall|p: int| 0 <= p < at ==> !occurs_at(hay@, needle@, p),
        decreases last + 1 - at,
    {
        if matches_at(&hay_chars, &needle_chars, at) {
            return true;
        }
        if at == last {
            assert forall|p: int| !occurs_at(hay@, needle@, p) by {}
            return false;
        }
        at += 1;
    }
    false
}

/// A text is found in another exactly if that one is made of something, the
/// text, and something.
pub proof fn found_texts_are_there(
    hay: &str,
    needle: &str,
    found: bool,
    before: Seq<char>,
    after: Seq<char>,
) -> (around: (Seq<char>, Seq<char>))
    requires
        call_ensures(contains_text, (hay, needle), found),
    ensures
        hay@ == before + needle@ + after ==> found,
        found ==> hay@ == around.0 + needle@ + around.1,
{
    if hay@ == before + needle@ + after {
        let at = before.len() as int;
        assert(hay@.subrange(at, at + needle@.len()) =~= needle@);
        assert(occurs_at(hay@, needle@, at));
    }
    let at = choose|at: int| occurs_at(hay@, needle@, at);
    let head = hay@.take(at);
    let tail = hay@.skip(at + needle@.len());
    if found {
        assert(occurs_at(hay@, needle@, at));
        let part = hay@.subrange(at, at + needle@.len());
        assert(hay@ =~= head + part + tail);
    }
    (head, tail)
}

/// The characters of a text are those of the text, in order.
pub proof fn characters_come_in_order(s: &str, chars: Vec<char>)
    requires
        call_ensures(chars_of, (s,), chars),
    ensures
        chars@ == s@,
{
}

/// A number is appended to what is there: its last digit is the last
/// character, and what stands before that is the number without it.
pub proof fn numbers_are_appended(text: &mut String, n: u64)
    requires
        call_ensures(append_decimal, (text, n), ()),
    ensures
        final(text)@.len() > old(text)@.len(),
        final(text)@.take(old(text)@.len() as int) == old(text)@,
        final(text)@.last() as int == 48 + n as int % 10,
        n < 10 ==> final(text)@.len() == old(text)@.len() + 1,
        final(text)@ == old(text)@ + decimal(n as nat),
        n >= 10 ==> final(text)@.drop_last() == old(text)@ + decimal((n / 10) as nat),
{
    let d = decimal(n as nat);
    assert((old(text)@ + d).take(old(text)@.len() as int) =~= old(text)@);
    assert((old(text)@ + d).last() == d.last());
    if n >= 10 {
        assert((old(text)@ + d).drop_last() =~= old(text)@ + d.drop_last());
        assert(d.drop_last() =~= decimal(n as nat / 10));
    }
}

} // verus!
