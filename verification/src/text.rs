//! Text as the operating system holds it: characters, UTF-16 units and the ASCII rules that names
//! and codes follow.
use vstd::prelude::*;
use vstd::string::*;
use vstd::utf8::*;
use crate::error::{Error, Result, invalid};

verus! {

/// The small letter of an ASCII capital; every other character stands for itself.
pub open spec fn ascii_lower(c: char) -> char {
    if 'A' <= c && c <= 'Z' {
        ((c as u8) + 32) as u8 as char
    } else {
        c
    }
}

/// The text with each ASCII capital replaced by its small letter.
pub open spec fn folded(text: Seq<char>) -> Seq<char> {
    text.map_values(|c: char| ascii_lower(c))
}

/// Two texts that differ at most in the case of ASCII letters.
pub open spec fn same_folded(a: Seq<char>, b: Seq<char>) -> bool {
    folded(a) == folded(b)
}

/// A character that may stand in a code: a capital letter or an underscore.
pub open spec fn code_char(c: char) -> bool {
    ('A' <= c && c <= 'Z') || c == '_'
}

pub open spec fn lower_hex_char(c: char) -> bool {
    ('0' <= c && c <= '9') || ('a' <= c && c <= 'f')
}

/// `std::string::String::push`: the character is appended to the text.
pub assume_specification[ String::push ](s: &mut String, c: char)
    ensures
        final(s)@ == old(s)@.push(c),
;

/// Whether two texts hold the same characters.
pub fn same(a: &str, b: &str) -> (r: bool)
    ensures
        r == (a@ == b@),
{
    a.to_owned() == b.to_owned()
}

/// An optional text by the characters it holds.
pub open spec fn option_view(text: Option<String>) -> Option<Seq<char>> {
    match text {
        Some(value) => Some(value@),
        None => None,
    }
}

/// Whether two optional texts are both absent or hold the same characters.
pub fn same_option(a: &Option<String>, b: &Option<String>) -> (r: bool)
    ensures
        r == (option_view(*a) == option_view(*b)),
{
    match (a, b) {
        (Some(x), Some(y)) => same(x.as_str(), y.as_str()),
        (None, None) => true,
        _ => false,
    }
}

/// The characters of a text as a vector.
pub fn chars(text: &str) -> (r: Vec<char>)
    ensures
        r@ == text@,
{
    let mut out: Vec<char> = Vec::new();
    for c in it: text.chars()
        invariant
            it.seq() == text@,
            out@ == text@.take(it.index()),
    {
        out.push(c);
        proof {
            assert(text@.take(it.index() + 1) =~= text@.take(it.index()).push(c));
        }
    }
    proof {
        assert(text@.take(text@.len() as int) =~= text@);
    }
    out
}

/// The text that holds the given characters.
pub fn from_chars(chars: &[char]) -> (r: String)
    ensures
        r@ == chars@,
{
    let mut out = String::new();
    let mut i: usize = 0;
    while i < chars.len()
        invariant
            i <= chars.len(),
            out@ == chars@.take(i as int),
        decreases chars.len() - i,
    {
        out.push(chars[i]);
        i += 1;
        proof {
            assert(chars@.take(i as int) =~= chars@.take(i - 1).push(chars@[i - 1]));
        }
    }
    proof {
        assert(chars@.take(chars@.len() as int) =~= chars@);
    }
    out
}

/// Three texts joined in order.
pub fn join3(a: &str, b: &str, c: &str) -> (r: String)
    ensures
        r@ == a@ + b@ + c@,
{
    let mut out = a.to_owned();
    out.append(b);
    out.append(c);
    out
}

/// Two texts joined in order.
pub fn join(a: &str, b: &str) -> (r: String)
    ensures
        r@ == a@ + b@,
{
    let mut out = a.to_owned();
    out.append(b);
    out
}

/// The small letter of an ASCII capital; every other character stands for itself.
pub fn lower(c: char) -> (r: char)
    ensures
        r == ascii_lower(c),
{
    if 'A' <= c && c <= 'Z' {
        ((c as u8) + 32) as char
    } else {
        c
    }
}

/// Whether two texts differ at most in the case of ASCII letters.
pub fn eq_ignore_ascii_case(a: &str, b: &str) -> (r: bool)
    ensures
        r == same_folded(a@, b@),
{
    let x = chars(a);
    let y = chars(b);
    if x.len() != y.len() {
        proof {
            assert(folded(a@).len() != folded(b@).len());
        }
        return false;
    }
    let mut i: usize = 0;
    while i < x.len()
        invariant
            i <= x.len(),
            x.len() == y.len(),
            x@ == a@,
            y@ == b@,
            forall|k: int| 0 <= k < i ==> ascii_lower(a@[k]) == ascii_lower(b@[k]),
        decreases x.len() - i,
    {
        if lower(x[i]) != lower(y[i]) {
            proof {
                assert(folded(a@)[i as int] != folded(b@)[i as int]);
            }
            return false;
        }
        i += 1;
    }
    proof {
        assert(folded(a@) =~= folded(b@));
    }
    true
}

/// A code: between one and ninety-six characters, each a capital letter or an underscore.
pub open spec fn code_text(text: Seq<char>) -> bool {
    0 < text.len() <= 96 && forall|i: int| 0 <= i < text.len() ==> code_char(#[trigger] text[i])
}

/// Whether a text is a code.
pub fn is_code(text: &str) -> (r: bool)
    ensures
        r == code_text(text@),
{
    let x = chars(text);
    if x.len() == 0 || x.len() > 96 {
        return false;
    }
    let mut i: usize = 0;
    while i < x.len()
        invariant
            i <= x.len(),
            x@ == text@,
            forall|k: int| 0 <= k < i ==> code_char(#[trigger] text@[k]),
        decreases x.len() - i,
    {
        let c = x[i];
        if !(('A' <= c && c <= 'Z') || c == '_') {
            proof {
                assert(!code_char(text@[i as int]));
            }
            return false;
        }
        i += 1;
    }
    true
}

/// Whether every character of a text is a small hexadecimal digit.
pub fn is_lower_hex(text: &str) -> (r: bool)
    ensures
        r == (forall|i: int| 0 <= i < text@.len() ==> lower_hex_char(#[trigger] text@[i])),
{
    let x = chars(text);
    let mut i: usize = 0;
    while i < x.len()
        invariant
            i <= x.len(),
            x@ == text@,
            forall|k: int| 0 <= k < i ==> lower_hex_char(#[trigger] text@[k]),
        decreases x.len() - i,
    {
        let c = x[i];
        if !(('0' <= c && c <= '9') || ('a' <= c && c <= 'f')) {
            proof {
                assert(!lower_hex_char(text@[i as int]));
            }
            return false;
        }
        i += 1;
    }
    true
}

/// Whether words begin with `start`.
pub fn words_begin(words: &[u16], start: &[u16]) -> (r: bool)
    ensures
        r == start@.is_prefix_of(words@),
{
    if words.len() < start.len() {
        return false;
    }
    let mut i: usize = 0;
    while i < start.len()
        invariant
            i <= start.len(),
            start.len() <= words.len(),
            forall|k: int| 0 <= k < i ==> start@[k] == words@[k],
        decreases start.len() - i,
    {
        if start[i] != words[i] {
            proof {
                if start@.is_prefix_of(words@) {
                    assert(start@[i as int] == words@.take(start@.len() as int)[i as int]);
                }
            }
            return false;
        }
        i += 1;
    }
    proof {
        assert(start@ =~= words@.take(start@.len() as int));
    }
    true
}

/// Whether two byte sequences are equal.
pub fn same_bytes(a: &[u8], b: &[u8]) -> (r: bool)
    ensures
        r == (a@ == b@),
{
    if a.len() != b.len() {
        return false;
    }
    let mut i: usize = 0;
    while i < a.len()
        invariant
            i <= a.len(),
            a.len() == b.len(),
            forall|k: int| 0 <= k < i ==> a@[k] == b@[k],
        decreases a.len() - i,
    {
        if a[i] != b[i] {
            return false;
        }
        i += 1;
    }
    proof {
        assert(a@ =~= b@);
    }
    true
}

/// A copy of a byte sequence.
pub fn copy_bytes(bytes: &[u8]) -> (r: Vec<u8>)
    ensures
        r@ == bytes@,
{
    let mut out: Vec<u8> = Vec::new();
    let mut i: usize = 0;
    while i < bytes.len()
        invariant
            i <= bytes.len(),
            out@ == bytes@.take(i as int),
        decreases bytes.len() - i,
    {
        out.push(bytes[i]);
        i += 1;
        proof {
            assert(bytes@.take(i as int) =~= bytes@.take(i - 1).push(bytes@[i - 1]));
        }
    }
    proof {
        assert(bytes@.take(bytes@.len() as int) =~= bytes@);
    }
    out
}

/// The decimal text of a number, without leading zeros.
pub open spec fn number(value: nat) -> Seq<char>
    decreases value,
{
    if value < 10 {
        seq![(48 + value) as u8 as char]
    } else {
        number(value / 10).push((48 + value % 10) as u8 as char)
    }
}

/// Append the decimal text of a number.
pub fn push_number(out: &mut String, value: u64)
    ensures
        final(out)@ == old(out)@ + number(value as nat),
    decreases value,
{
    if value >= 10 {
        push_number(out, value / 10);
    }
    out.push((48 + (value % 10) as u8) as char);
    proof {
        assert(out@ =~= old(out)@ + number(value as nat));
    }
}

/// The UTF-16 units of one character: one unit up to U+FFFF, a surrogate pair above.
pub open spec fn char_units(c: char) -> Seq<u16> {
    let v = c as u32;
    if v < 0x10000 {
        seq![v as u16]
    } else {
        seq![(0xD800 + (v - 0x10000) / 0x400) as u16, (0xDC00 + (v - 0x10000) % 0x400) as u16]
    }
}

/// The UTF-16 units of a text.
pub open spec fn utf16(text: Seq<char>) -> Seq<u16>
    decreases text.len(),
{
    if text.len() == 0 {
        Seq::empty()
    } else {
        utf16(text.drop_last()) + char_units(text.last())
    }
}

/// The UTF-16 units of a text.
pub fn encode_utf16(text: &str) -> (r: Vec<u16>)
    ensures
        r@ == utf16(text@),
{
    let x = chars(text);
    let mut out: Vec<u16> = Vec::new();
    let mut i: usize = 0;
    while i < x.len()
        invariant
            i <= x.len(),
            x@ == text@,
            out@ == utf16(text@.take(i as int)),
        decreases x.len() - i,
    {
        let c = x[i];
        let v: u32 = c as u32;
        proof {
            char_is_scalar(c);
            let next = text@.take(i + 1);
            assert(next.drop_last() =~= text@.take(i as int));
            assert(next.last() == text@[i as int]);
        }
        if v < 0x10000 {
            out.push(v as u16);
        } else {
            let w: u32 = v - 0x10000;
            assert(w < 0x100000);
            out.push((0xD800 + w / 0x400) as u16);
            out.push((0xDC00 + w % 0x400) as u16);
        }
        proof {
            assert(out@ =~= utf16(text@.take(i as int)) + char_units(text@[i as int]));
        }
        i += 1;
    }
    proof {
        assert(text@.take(text@.len() as int) =~= text@);
    }
    out
}

/// `std::string::String::from_utf16`: the text whose UTF-16 form is `words`, and `None` when no
/// text has that form (an unpaired surrogate).
#[verifier::external_body]
pub(crate) fn from_utf16(words: &[u16]) -> (r: Option<String>)
    ensures
        match r {
            Some(text) => utf16(text@) == words@,
            None => forall|text: Seq<char>| #[trigger] utf16(text) != words@,
        },
{
    String::from_utf16(words).ok()
}

/// A text without the terminator has no terminator among its units.
pub proof fn utf16_without_terminator(t: Seq<char>)
    requires
        !t.contains('\0'),
    ensures
        !utf16(t).contains(0),
    decreases t.len(),
{
    if t.len() > 0 {
        let front = t.drop_last();
        assert(!front.contains('\0')) by {
            if front.contains('\0') {
                let k = choose|k: int| 0 <= k < front.len() && front[k] == '\0';
                assert(t[k] == '\0');
            }
        }
        utf16_without_terminator(front);
        let c = t.last();
        assert(c != '\0') by {
            assert(t[t.len() - 1] == c);
        }
        char_is_scalar(c);
        assert(c as u32 != 0) by {
            if c as u32 == 0 {
                char_u32_cast(c, 0);
                char_u32_cast('\0', 0);
            }
        }
        let units = char_units(c);
        assert(!units.contains(0));
        if utf16(t).contains(0) {
            let k = choose|k: int| 0 <= k < utf16(t).len() && utf16(t)[k] == 0;
            if k < utf16(front).len() {
                assert(utf16(front)[k] == 0);
            } else {
                assert(units[k - utf16(front).len()] == 0);
            }
        }
    }
}

/// Units that are the UTF-16 form of some text.
pub open spec fn is_utf16(words: Seq<u16>) -> bool {
    exists|t: Seq<char>| #[trigger] utf16(t) == words
}

/// The units of a text with the terminator that the operating system expects. A text that holds
/// the terminator itself is refused.
pub fn wide(text: &str) -> (r: Result<Vec<u16>>)
    ensures
        if utf16(text@).contains(0) {
            r == invalid::<Vec<u16>>("EMBEDDED_NUL")
        } else {
            r matches Ok(words) && words@ == utf16(text@).push(0)
        },
{
    let mut words = encode_utf16(text);
    let mut i: usize = 0;
    while i < words.len()
        invariant
            i <= words.len(),
            words@ == utf16(text@),
            forall|k: int| 0 <= k < i ==> words@[k] != 0,
        decreases words.len() - i,
    {
        if words[i] == 0 {
            return Err(Error::Invalid("EMBEDDED_NUL"));
        }
        i += 1;
    }
    words.push(0);
    Ok(words)
}

/// Different texts have different UTF-16 forms.
pub proof fn utf16_injective(a: Seq<char>, b: Seq<char>)
    requires
        utf16(a) == utf16(b),
    ensures
        a == b,
    decreases a.len(),
{
    if a.len() == 0 {
        if b.len() > 0 {
            assert(utf16(b).len() > 0);
        }
        assert(a =~= b);
    } else if b.len() == 0 {
        assert(utf16(a).len() > 0);
    } else {
        char_is_scalar(a.last());
        char_is_scalar(b.last());
        let ua = char_units(a.last());
        let ub = char_units(b.last());
        let w = utf16(a);
        let pa = utf16(a.drop_last());
        let pb = utf16(b.drop_last());
        assert(w == pa + ua);
        assert(w == pb + ub);
        assert(w.last() == ua.last());
        assert(w.last() == ub.last());
        assert(ua.len() == ub.len());
        assert(pa =~= w.take(w.len() - ua.len()));
        assert(pb =~= w.take(w.len() - ub.len()));
        assert(ua =~= w.skip(w.len() - ua.len()));
        assert(ub =~= w.skip(w.len() - ub.len()));
        utf16_injective(a.drop_last(), b.drop_last());
        assert(ua[0] == ub[0]);
        assert(a.last() as u32 == b.last() as u32);
        char_u32_cast(a.last(), a.last() as u32);
        char_u32_cast(b.last(), b.last() as u32);
        assert(a =~= a.drop_last().push(a.last()));
        assert(b =~= b.drop_last().push(b.last()));
    }
}

/// Whether a text holds a terminator.
pub fn has_terminator(value: &str) -> (r: bool)
    ensures
        r == value@.contains('\0'),
{
    let x = chars(value);
    let mut i: usize = 0;
    while i < x.len()
        invariant
            i <= x.len(),
            x@ == value@,
            forall|k: int| 0 <= k < i ==> value@[k] != '\0',
        decreases x.len() - i,
    {
        if x[i] == '\0' {
            proof {
                assert(value@[i as int] == '\0');
            }
            return true;
        }
        i += 1;
    }
    false
}

} // verus!
