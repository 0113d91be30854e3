//! Text as sequences of characters.
//!
//! Contracts speak of a string's view, a sequence of `char`. The functions here build
//! and take apart strings by that view.

use vstd::prelude::*;
use vstd::string::*;
use vstd::utf8::*;

verus! {

/// `String::push`: appends one character.
pub assume_specification[ String::push ](s: &mut String, c: char)
    ensures
        final(s)@ == old(s)@.push(c),
;

/// What `str::to_lowercase` returns: the lowercase mapping of the Unicode standard.
pub uninterp spec fn lowercase(text: Seq<char>) -> Seq<char>;

/// Calls `str::to_lowercase`. The result depends on the text alone; which characters
/// it maps to is left to the Unicode tables.
#[verifier::external_body]
pub(crate) fn to_lowercase(text: &str) -> (lower: String)
    ensures
        lower@ == lowercase(text@),
{
    text.to_lowercase()
}

/// The characters of `text`, in order.
pub fn chars_of(text: &str) -> (chars: Vec<char>)
    ensures
        chars@ == text@,
{
    let mut chars: Vec<char> = Vec::new();
    for c in rest: text.chars()
        invariant
            chars@ =~= rest.seq().take(rest.index() as int),
            rest.seq() == text@,
    {
        chars.push(c);
    }
    chars
}

/// The string made of `chars`.
pub fn string_of(chars: &Vec<char>) -> (s: String)
    ensures
        s@ == chars@,
{
    let mut s = String::new();
    let mut i: usize = 0;
    while i < chars.len()
        invariant
            i <= chars.len(),
            s@ == chars@.take(i as int),
        decreases chars.len() - i,
    {
        s.push(chars[i]);
        i += 1;
        assert(chars@.take(i as int) =~= chars@.take(i - 1).push(chars@[i - 1]));
    }
    assert(chars@.take(i as int) =~= chars@);
    s
}

proof fn lemma_encode_concat(a: Seq<char>, b: Seq<char>)
    ensures
        encode_utf8(a + b) == encode_utf8(a) + encode_utf8(b),
    decreases a.len(),
{
    if a.len() == 0 {
        assert(a + b =~= b);
    } else {
        assert((a + b).drop_first() =~= a.drop_first() + b);
        lemma_encode_concat(a.drop_first(), b);
    }
}

/// The encodings of a text's prefixes end on character boundaries.
proof fn lemma_prefix_is_boundary(text: Seq<char>, n: int)
    requires
        0 <= n <= text.len(),
    ensures
        is_char_boundary(encode_utf8(text), encode_utf8(text.take(n)).len() as int),
    decreases n,
{
    encode_utf8_valid_utf8(text);
    if n == 0 {
        assert(text.take(0) =~= Seq::<char>::empty());
    } else {
        let bytes = encode_utf8(text);
        encode_utf8_first_scalar(text);
        assert(pop_first_scalar(bytes) =~= encode_utf8(text.drop_first()));
        assert(text.take(n).drop_first() =~= text.drop_first().take(n - 1));
        lemma_prefix_is_boundary(text.drop_first(), n - 1);
        assert(text =~= text.take(n) + text.skip(n));
        lemma_encode_concat(text.take(n), text.skip(n));
    }
}

/// How many bytes a character takes in UTF-8.
fn utf8_width(c: char) -> (n: usize)
    ensures
        n == encode_scalar(c as u32).len(),
        1 <= n <= 4,
{
    let code: u32 = c as u32;
    if code <= 0x7f {
        1
    } else if code <= 0x7ff {
        2
    } else if code <= 0xffff {
        3
    } else {
        4
    }
}

/// The prefix of `text` that `char_to_byte` measures.
pub open spec fn prefix(text: Seq<char>, n: int) -> Seq<char> {
    if n < text.len() {
        text.take(n)
    } else {
        text
    }
}

/// Byte offset of the `n`th character, or of the end of the text.
///
/// A caret counts characters and a string is cut by bytes, so every edit converts
/// first: a cut inside a multi-byte character would not be a string.
pub fn char_to_byte(text: &str, n: usize) -> (byte: usize)
    ensures
        byte == encode_utf8(prefix(text@, n as int)).len(),
{
    let chars = chars_of(text);
    let all = text.as_bytes();
    let size: usize = all.len();
    let mut byte: usize = 0;
    let mut i: usize = 0;
    while i < n && i < chars.len()
        invariant
            i <= n,
            i <= chars.len(),
            chars@ == text@,
            byte == encode_utf8(text@.take(i as int)).len(),
            size == encode_utf8(text@).len(),
        decreases chars.len() - i,
    {
        proof {
            let c = text@[i as int];
            assert(text@.take(i + 1) =~= text@.take(i as int) + seq![c]);
            lemma_encode_concat(text@.take(i as int), seq![c]);
            assert(seq![c].drop_first() =~= Seq::<char>::empty());
            assert(encode_utf8(seq![c].drop_first()) =~= Seq::<u8>::empty());
            assert(encode_utf8(seq![c]) =~= encode_scalar(c as u32));
            assert(text@ =~= text@.take(i + 1) + text@.skip(i + 1));
            lemma_encode_concat(text@.take(i + 1), text@.skip(i + 1));
        }
        byte = byte + utf8_width(chars[i]);
        i += 1;
    }
    assert(text@.take(text@.len() as int) =~= text@);
    byte
}

/// The text before its `n`th character, and the rest.
pub fn split_at_char(text: &str, n: usize) -> (parts: (&str, &str))
    requires
        n <= text@.len(),
    ensures
        parts.0@ == text@.take(n as int),
        parts.1@ == text@.skip(n as int),
{
    let byte: usize = char_to_byte(text, n);
    proof {
        assert(text@.take(text@.len() as int) =~= text@);
        lemma_prefix_is_boundary(text@, n as int);
    }
    let parts = text.split_at(byte);
    proof {
        let head = text@.take(n as int);
        let tail = text@.skip(n as int);
        assert(text@ =~= head + tail);
        lemma_encode_concat(head, tail);
        assert(parts.0.spec_bytes() =~= encode_utf8(head));
        assert(parts.1.spec_bytes() =~= encode_utf8(tail));
        encode_utf8_decode_utf8(head);
        encode_utf8_decode_utf8(tail);
        encode_utf8_decode_utf8(parts.0@);
        encode_utf8_decode_utf8(parts.1@);
    }
    parts
}

/// `text` with `c` inserted before its `n`th character.
pub fn insert_char(text: &str, n: usize, c: char) -> (s: String)
    requires
        n <= text@.len(),
    ensures
        s@ == text@.insert(n as int, c),
{
    let (head, tail) = split_at_char(text, n);
    let mut s = head.to_owned();
    s.push(c);
    s.append(tail);
    assert(s@ =~= text@.insert(n as int, c));
    s
}

/// `text` without its `n`th character.
pub fn remove_char(text: &str, n: usize) -> (s: String)
    requires
        n < text@.len(),
    ensures
        s@ == text@.remove(n as int),
{
    let (head, rest) = split_at_char(text, n);
    let (_, tail) = split_at_char(rest, 1);
    let mut s = head.to_owned();
    s.append(tail);
    assert(s@ =~= text@.remove(n as int));
    s
}

/// The control characters: the C0 range, delete, and the C1 range.
pub open spec fn is_control_char(c: char) -> bool {
    c as u32 <= 0x1f || 0x7f <= c as u32 <= 0x9f
}

pub fn is_control(c: char) -> (b: bool)
    ensures
        b == is_control_char(c),
{
    let code: u32 = c as u32;
    code <= 0x1f || (0x7f <= code && code <= 0x9f)
}

/// Dictionary order of two texts, by code point.
pub open spec fn lex_less(a: Seq<char>, b: Seq<char>) -> bool
    decreases a.len(),
{
    if b.len() == 0 {
        false
    } else if a.len() == 0 {
        true
    } else if a[0] != b[0] {
        (a[0] as u32) < (b[0] as u32)
    } else {
        lex_less(a.drop_first(), b.drop_first())
    }
}

/// Whether `a` comes before `b` in dictionary order.
pub fn text_less(a: &Vec<char>, b: &Vec<char>) -> (less: bool)
    ensures
        less == lex_less(a@, b@),
{
    let mut i: usize = 0;
    assert(a@.skip(0) =~= a@);
    assert(b@.skip(0) =~= b@);
    while i < a.len() && i < b.len()
        invariant
            i <= a@.len(),
            i <= b@.len(),
            lex_less(a@, b@) == lex_less(a@.skip(i as int), b@.skip(i as int)),
        decreases a.len() - i,
    {
        if a[i] != b[i] {
            return (a[i] as u32) < (b[i] as u32);
        }
        assert(a@.skip(i as int).drop_first() =~= a@.skip(i + 1));
        assert(b@.skip(i as int).drop_first() =~= b@.skip(i + 1));
        i += 1;
    }
    i < b.len()
}

pub proof fn lemma_lex_transitive(a: Seq<char>, b: Seq<char>, c: Seq<char>)
    requires
        lex_less(a, b),
        lex_less(b, c),
    ensures
        lex_less(a, c),
    decreases a.len(),
{
    if a.len() > 0 && b.len() > 0 && c.len() > 0 && a[0] == b[0] && b[0] == c[0] {
        lemma_lex_transitive(a.drop_first(), b.drop_first(), c.drop_first());
    }
}

pub proof fn lemma_lex_total(a: Seq<char>, b: Seq<char>)
    ensures
        lex_less(a, b) ==> !lex_less(b, a) && a != b,
        lex_less(a, b) || lex_less(b, a) || a == b,
    decreases a.len(),
{
    if a.len() == 0 && b.len() == 0 {
        assert(a =~= b);
    } else if a.len() > 0 && b.len() > 0 {
        if a[0] == b[0] {
            lemma_lex_total(a.drop_first(), b.drop_first());
            if a.drop_first() == b.drop_first() {
                assert(a =~= seq![a[0]] + a.drop_first());
                assert(b =~= seq![b[0]] + b.drop_first());
            }
        } else {
            char_u32_cast(a[0], a[0] as u32);
            char_u32_cast(b[0], b[0] as u32);
        }
    }
}

/// White space, as Unicode defines it.
pub open spec fn is_space_char(c: char) -> bool {
    let n = c as u32;
    ||| 0x9 <= n <= 0xd
    ||| n == 0x20
    ||| n == 0x85
    ||| n == 0xa0
    ||| n == 0x1680
    ||| 0x2000 <= n <= 0x200a
    ||| n == 0x2028
    ||| n == 0x2029
    ||| n == 0x202f
    ||| n == 0x205f
    ||| n == 0x3000
}

pub fn is_space(c: char) -> (b: bool)
    ensures
        b == is_space_char(c),
{
    let n: u32 = c as u32;
    (0x9 <= n && n <= 0xd) || n == 0x20 || n == 0x85 || n == 0xa0 || n == 0x1680 || (0x2000 <= n
        && n <= 0x200a) || n == 0x2028 || n == 0x2029 || n == 0x202f || n == 0x205f || n == 0x3000
}

/// `text` without leading white space.
pub open spec fn trimmed_start(text: Seq<char>) -> Seq<char>
    decreases text.len(),
{
    if text.len() > 0 && is_space_char(text[0]) {
        trimmed_start(text.drop_first())
    } else {
        text
    }
}

/// `text` without trailing white space.
pub open spec fn trimmed_end(text: Seq<char>) -> Seq<char>
    decreases text.len(),
{
    if text.len() > 0 && is_space_char(text.last()) {
        trimmed_end(text.drop_last())
    } else {
        text
    }
}

/// `text` without white space at either end.
pub open spec fn trimmed(text: Seq<char>) -> Seq<char> {
    trimmed_end(trimmed_start(text))
}

/// `text` without white space at either end.
pub fn trim(text: &str) -> (t: String)
    ensures
        t@ == trimmed(text@),
{
    let chars = chars_of(text);
    let mut start: usize = 0;
    assert(chars@.skip(0) =~= chars@);
    while start < chars.len() && is_space(chars[start])
        invariant
            start <= chars@.len(),
            trimmed_start(chars@) == trimmed_start(chars@.skip(start as int)),
        decreases chars.len() - start,
    {
        assert(chars@.skip(start as int).drop_first() =~= chars@.skip(start + 1));
        start += 1;
    }
    let ghost rest = chars@.skip(start as int);
    assert(trimmed_start(chars@) == rest);
    let mut end: usize = chars.len();
    assert(rest.take(end - start) =~= rest);
    while start < end && is_space(chars[end - 1])
        invariant
            start <= end <= chars@.len(),
            rest == chars@.skip(start as int),
            trimmed_end(rest) == trimmed_end(rest.take(end - start)),
        decreases end - start,
    {
        assert(rest.take(end - start).drop_last() =~= rest.take(end - start - 1));
        end -= 1;
    }
    let t = slice_text(&chars, start, end);
    assert(t@ =~= rest.take(end - start));
    t
}

/// The characters from `start` up to `end`, as a string.
pub fn slice_text(chars: &Vec<char>, start: usize, end: usize) -> (s: String)
    requires
        start <= end <= chars.len(),
    ensures
        s@ == chars@.subrange(start as int, end as int),
{
    let mut s = String::new();
    let mut i: usize = start;
    while i < end
        invariant
            start <= i <= end <= chars.len(),
            s@ =~= chars@.subrange(start as int, i as int),
        decreases end - i,
    {
        s.push(chars[i]);
        i += 1;
    }
    s
}

/// Whether two texts are the same.
pub fn same_text(a: &str, b: &str) -> (same: bool)
    ensures
        same == (a@ == b@),
{
    let x = chars_of(a);
    let y = chars_of(b);
    same_chars(&x, &y)
}

pub fn same_chars(x: &Vec<char>, y: &Vec<char>) -> (same: bool)
    ensures
        same == (x@ == y@),
{
    if x.len() != y.len() {
        return false;
    }
    let mut i: usize = 0;
    while i < x.len()
        invariant
            i <= x.len() == y.len(),
            forall|j: int| 0 <= j < i ==> x@[j] == y@[j],
        decreases x.len() - i,
    {
        if x[i] != y[i] {
            return false;
        }
        i += 1;
    }
    assert(x@ =~= y@);
    true
}

/// `needle` stands in `text` at position `i`.
pub open spec fn stands_at(text: Seq<char>, needle: Seq<char>, i: int) -> bool {
    0 <= i && i + needle.len() <= text.len() && text.subrange(i, i + needle.len()) == needle
}

/// `needle` stands somewhere in `text`.
pub open spec fn holds(text: Seq<char>, needle: Seq<char>) -> bool {
    exists|i: int| stands_at(text, needle, i)
}

fn found_at(text: &Vec<char>, needle: &Vec<char>, i: usize) -> (b: bool)
    requires
        i <= text.len(),
    ensures
        b == stands_at(text@, needle@, i as int),
{
    if needle.len() > text.len() - i {
        return false;
    }
    let total: usize = text.len();
    let mut k: usize = 0;
    let ghost part = text@.subrange(i as int, i + needle@.len());
    while k < needle.len()
        invariant
            k <= needle@.len(),
            total == text@.len(),
            i + needle@.len() <= text@.len(),
            part == text@.subrange(i as int, i + needle@.len()),
            forall|j: int| 0 <= j < k ==> part[j] == needle@[j],
        decreases needle@.len() - k,
    {
        if text[i + k] != needle[k] {
            assert(part[k as int] != needle@[k as int]);
            return false;
        }
        k += 1;
    }
    assert(part =~= needle@);
    true
}

/// Whether `needle` stands somewhere in `text`.
pub fn contains_text(text: &str, needle: &str) -> (b: bool)
    ensures
        b == holds(text@, needle@),
{
    let hay = chars_of(text);
    let pin = chars_of(needle);
    let mut i: usize = 0;
    while i < hay.len()
        invariant
            i <= hay@.len(),
            hay@ == text@,
            pin@ == needle@,
            forall|j: int| 0 <= j < i ==> !stands_at(text@, needle@, j),
        decreases hay@.len() - i,
    {
        if found_at(&hay, &pin, i) {
            return true;
        }
        i += 1;
    }
    if found_at(&hay, &pin, i) {
        return true;
    }
    assert forall|j: int| !stands_at(text@, needle@, j) by {
        if 0 <= j < hay@.len() {
        } else if j == hay@.len() {
        }
    }
    false
}

/// Whether `text` begins with `start`.
pub fn starts_with(text: &str, start: &str) -> (b: bool)
    ensures
        b == stands_at(text@, start@, 0),
{
    let hay = chars_of(text);
    let pin = chars_of(start);
    found_at(&hay, &pin, 0)
}

/// `text` followed by spaces up to `width` characters.
pub open spec fn padded_right(text: Seq<char>, width: int) -> Seq<char> {
    text + Seq::new(
        (if width > text.len() {
            width - text.len()
        } else {
            0
        }) as nat,
        |i: int| ' ',
    )
}

/// `text` followed by spaces up to `width` characters.
pub fn pad_right(text: &str, width: usize) -> (s: String)
    ensures
        s@ == padded_right(text@, width as int),
{
    let mut s = text.to_owned();
    let len: usize = text.unicode_len();
    let mut i: usize = len;
    while i < width
        invariant
            len == text@.len(),
            len <= i,
            i <= width || i == len,
            s@ =~= text@ + Seq::new((i - len) as nat, |k: int| ' '),
        decreases width - i,
    {
        s.push(' ');
        i += 1;
    }
    assert(s@ =~= padded_right(text@, width as int));
    s
}

/// The text of a string that may be missing.
pub open spec fn text_of(text: Option<String>) -> Option<Seq<char>> {
    match text {
        Some(t) => Some(t@),
        None => None,
    }
}

/// The text of a slice that may be missing.
pub open spec fn str_of(text: Option<&str>) -> Option<Seq<char>> {
    match text {
        Some(t) => Some(t@),
        None => None,
    }
}

/// An owned copy of a text that may be missing.
pub fn own(text: Option<&str>) -> (copy: Option<String>)
    ensures
        text_of(copy) == str_of(text),
{
    match text {
        Some(t) => Some(t.to_owned()),
        None => None,
    }
}

} // verus!
