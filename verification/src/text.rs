//! Text primitives: ordering, trimming, searching, casing and decimal rendering.
use vstd::prelude::*;
use vstd::string::*;
use vstd::utf8::*;

verus! {

/// `String::push` of std: the character is appended to the text.
pub assume_specification[ String::push ](s: &mut String, c: char)
    ensures
        final(s)@ == old(s)@.push(c),
;

/// Orders `a` before `b` from character `i` on, given that they agree before `i`.
pub open spec fn lt_from(a: Seq<char>, b: Seq<char>, i: nat) -> bool
    decreases a.len() - i,
{
    if i >= b.len() {
        false
    } else if i >= a.len() {
        true
    } else if a[i as int] == b[i as int] {
        lt_from(a, b, i + 1)
    } else {
        a[i as int] < b[i as int]
    }
}

/// The strict lexicographic order on texts. Scalar values order as their UTF-8 bytes do, so
/// this is also the byte order of the encoded texts.
pub open spec fn lt(a: Seq<char>, b: Seq<char>) -> bool {
    lt_from(a, b, 0)
}

proof fn lemma_lt_from_irreflexive(a: Seq<char>, i: nat)
    ensures
        !lt_from(a, a, i),
    decreases a.len() - i,
{
    if i < a.len() {
        lemma_lt_from_irreflexive(a, i + 1);
    }
}

proof fn lemma_lt_from_transitive(a: Seq<char>, b: Seq<char>, c: Seq<char>, i: nat)
    requires
        lt_from(a, b, i),
        lt_from(b, c, i),
    ensures
        lt_from(a, c, i),
    decreases a.len() - i,
{
    if i < a.len() && i < b.len() && i < c.len() && a[i as int] == b[i as int] && b[i as int]
        == c[i as int] {
        lemma_lt_from_transitive(a, b, c, i + 1);
    }
}

proof fn lemma_lt_from_total(a: Seq<char>, b: Seq<char>, i: nat)
    requires
        i <= a.len(),
        i <= b.len(),
        forall|k: int| 0 <= k < i ==> a[k] == b[k],
    ensures
        lt_from(a, b, i) || lt_from(b, a, i) || a == b,
    decreases a.len() - i,
{
    if i < a.len() && i < b.len() && a[i as int] == b[i as int] {
        lemma_lt_from_total(a, b, i + 1);
    } else if i == a.len() && i == b.len() {
        assert(a =~= b);
    }
}

/// No text is ordered before itself.
pub proof fn law_order_irreflexive(a: Seq<char>)
    ensures
        !lt(a, a),
{
    lemma_lt_from_irreflexive(a, 0);
}

/// The text order is transitive.
pub proof fn law_order_transitive(a: Seq<char>, b: Seq<char>, c: Seq<char>)
    requires
        lt(a, b),
        lt(b, c),
    ensures
        lt(a, c),
{
    lemma_lt_from_transitive(a, b, c, 0);
}

/// Two texts are equal or one of them is ordered before the other, never both.
pub proof fn law_order_total(a: Seq<char>, b: Seq<char>)
    ensures
        lt(a, b) || lt(b, a) || a == b,
        !(lt(a, b) && lt(b, a)),
{
    lemma_lt_from_total(a, b, 0);
    if lt(a, b) && lt(b, a) {
        law_order_transitive(a, b, a);
        law_order_irreflexive(a);
    }
}

/// The characters of a text.
pub fn chars_of(text: &str) -> (r: Vec<char>)
    ensures
        r@ == text@,
{
    let mut out: Vec<char> = Vec::new();
    for c in it: text.chars()
        invariant
            out@ == it.seq().take(it.index() as int),
            it.seq() == text@,
    {
        out.push(c);
    }
    assert(text@.take(text@.len() as int) =~= text@);
    out
}

/// The text of the characters from `from` up to `to`.
pub fn text_of(chars: &Vec<char>, from: usize, to: usize) -> (r: String)
    requires
        from <= to <= chars@.len(),
    ensures
        r@ == chars@.subrange(from as int, to as int),
{
    let mut out: String = String::new();
    let mut i: usize = from;
    while i < to
        invariant
            from <= i <= to <= chars@.len(),
            out@ == chars@.subrange(from as int, i as int),
        decreases to - i,
    {
        out.push(chars[i]);
        assert(chars@.subrange(from as int, i as int).push(chars@[i as int])
            =~= chars@.subrange(from as int, i + 1));
        i = i + 1;
    }
    out
}

/// Whether `a` is ordered before `b`.
pub fn before(a: &str, b: &str) -> (r: bool)
    ensures
        r == lt(a@, b@),
{
    let left: Vec<char> = chars_of(a);
    let right: Vec<char> = chars_of(b);
    let mut i: usize = 0;
    while i < left.len() && i < right.len() && left[i] == right[i]
        invariant
            i <= left@.len(),
            i <= right@.len(),
            left@ == a@,
            right@ == b@,
            lt(a@, b@) == lt_from(a@, b@, i as nat),
        decreases left@.len() - i,
    {
        i = i + 1;
    }
    if i >= right.len() {
        false
    } else if i >= left.len() {
        true
    } else {
        left[i] < right[i]
    }
}

/// Whether two texts hold the same characters.
pub fn same(a: &str, b: &str) -> (r: bool)
    ensures
        r == (a@ == b@),
{
    let left: Vec<char> = chars_of(a);
    let right: Vec<char> = chars_of(b);
    if left.len() != right.len() {
        return false;
    }
    let mut i: usize = 0;
    while i < left.len()
        invariant
            i <= left@.len(),
            left@.len() == right@.len(),
            left@ == a@,
            right@ == b@,
            forall|k: int| 0 <= k < i ==> a@[k] == b@[k],
        decreases left@.len() - i,
    {
        if left[i] != right[i] {
            return false;
        }
        i = i + 1;
    }
    assert(a@ =~= b@);
    true
}

/// The number of bytes of the UTF-8 encoding.
pub open spec fn byte_len(text: Seq<char>) -> nat {
    encode_utf8(text).len()
}

/// The number of bytes of a text.
pub fn byte_count(text: &str) -> (r: usize)
    ensures
        r == byte_len(text@),
{
    text.as_bytes().len()
}

/// A text followed by another.
pub fn joined(a: &str, b: &str) -> (r: String)
    ensures
        r@ == a@ + b@,
{
    let mut out: String = a.to_owned();
    out.append(b);
    out
}

/// A text between two others.
pub fn around(head: &str, name: &str, tail: &str) -> (r: String)
    ensures
        r@ == head@ + name@ + tail@,
{
    let start: String = joined(head, name);
    joined(&start, tail)
}

/// Unicode's White_Space property.
pub open spec fn is_white_space(c: char) -> bool {
    let code: u32 = c as u32;
    ||| 0x9 <= code <= 0xd
    ||| code == 0x20
    ||| code == 0x85
    ||| code == 0xa0
    ||| code == 0x1680
    ||| 0x2000 <= code <= 0x200a
    ||| code == 0x2028
    ||| code == 0x2029
    ||| code == 0x202f
    ||| code == 0x205f
    ||| code == 0x3000
}

/// Whether a character has Unicode's White_Space property.
pub fn white_space(c: char) -> (r: bool)
    ensures
        r == is_white_space(c),
{
    let code: u32 = c as u32;
    (0x9 <= code && code <= 0xd) || code == 0x20 || code == 0x85 || code == 0xa0 || code == 0x1680
        || (0x2000 <= code && code <= 0x200a) || code == 0x2028 || code == 0x2029 || code == 0x202f
        || code == 0x205f || code == 0x3000
}

/// The text holds nothing but white space.
pub open spec fn is_blank(text: Seq<char>) -> bool {
    forall|i: int| 0 <= i < text.len() ==> is_white_space(#[trigger] text[i])
}

/// `inner` is `text` without its leading and trailing white space.
pub open spec fn is_trim_of(inner: Seq<char>, text: Seq<char>) -> bool {
    exists|from: int, to: int|
        {
            &&& 0 <= from <= to <= text.len()
            &&& inner == #[trigger] text.subrange(from, to)
            &&& is_blank(text.subrange(0, from))
            &&& is_blank(text.subrange(to, text.len() as int))
            &&& inner.len() > 0 ==> !is_white_space(inner[0]) && !is_white_space(inner.last())
        }
}

/// The text without its leading and trailing white space.
pub open spec fn trimmed(text: Seq<char>) -> Seq<char> {
    choose|inner: Seq<char>| is_trim_of(inner, text)
}

/// There is one trimmed text only.
pub proof fn lemma_trim_unique(a: Seq<char>, b: Seq<char>, text: Seq<char>)
    requires
        is_trim_of(a, text),
        is_trim_of(b, text),
    ensures
        a == b,
{
    let (f, t) = choose|from: int, to: int|
        {
            &&& 0 <= from <= to <= text.len()
            &&& a == #[trigger] text.subrange(from, to)
            &&& is_blank(text.subrange(0, from))
            &&& is_blank(text.subrange(to, text.len() as int))
            &&& a.len() > 0 ==> !is_white_space(a[0]) && !is_white_space(a.last())
        };
    let (g, u) = choose|from: int, to: int|
        {
            &&& 0 <= from <= to <= text.len()
            &&& b == #[trigger] text.subrange(from, to)
            &&& is_blank(text.subrange(0, from))
            &&& is_blank(text.subrange(to, text.len() as int))
            &&& b.len() > 0 ==> !is_white_space(b[0]) && !is_white_space(b.last())
        };
    lemma_trim_inside(a, f, t, g, u, text);
    lemma_trim_inside(b, g, u, f, t, text);
    if a.len() == 0 {
        assert(a =~= b);
    }
}

/// The ends of a trimmed text stand inside every part that leaves blank ends.
proof fn lemma_trim_inside(a: Seq<char>, f: int, t: int, g: int, u: int, text: Seq<char>)
    requires
        0 <= f <= t <= text.len(),
        0 <= g <= u <= text.len(),
        a == text.subrange(f, t),
        a.len() > 0 ==> !is_white_space(a[0]) && !is_white_space(a.last()),
        is_blank(text.subrange(0, g)),
        is_blank(text.subrange(u, text.len() as int)),
    ensures
        a.len() > 0 ==> g <= f && t <= u,
{
    if a.len() > 0 {
        assert(a[0] == text[f]);
        assert(a.last() == text[t - 1]);
        if f < g {
            assert(text.subrange(0, g)[f] == text[f]);
        }
        if t > u {
            assert(text.subrange(u, text.len() as int)[t - 1 - u] == text[t - 1]);
        }
    }
}

/// Whether a text holds nothing but white space.
pub fn blank(text: &str) -> (r: bool)
    ensures
        r == is_blank(text@),
{
    let chars: Vec<char> = chars_of(text);
    let mut i: usize = 0;
    while i < chars.len()
        invariant
            i <= chars@.len(),
            chars@ == text@,
            forall|k: int| 0 <= k < i ==> is_white_space(#[trigger] text@[k]),
        decreases chars@.len() - i,
    {
        if !white_space(chars[i]) {
            return false;
        }
        i = i + 1;
    }
    true
}

/// The text without its leading and trailing white space.
pub fn trim(text: &str) -> (r: String)
    ensures
        r@ == trimmed(text@),
        is_trim_of(r@, text@),
        r@.len() == 0 <==> is_blank(text@),
{
    let chars: Vec<char> = chars_of(text);
    let mut from: usize = 0;
    while from < chars.len() && white_space(chars[from])
        invariant
            from <= chars@.len(),
            chars@ == text@,
            forall|k: int| 0 <= k < from ==> is_white_space(#[trigger] text@[k]),
        decreases chars@.len() - from,
    {
        from = from + 1;
    }
    let mut to: usize = chars.len();
    while to > from && white_space(chars[to - 1])
        invariant
            from <= to <= chars@.len(),
            chars@ == text@,
            from < chars@.len() ==> !is_white_space(text@[from as int]),
            forall|k: int| to <= k < text@.len() ==> is_white_space(#[trigger] text@[k]),
        decreases to,
    {
        to = to - 1;
    }
    let out: String = text_of(&chars, from, to);
    proof {
        let inner = text@.subrange(from as int, to as int);
        assert(is_blank(text@.subrange(0, from as int)));
        assert(is_blank(text@.subrange(to as int, text@.len() as int)));
        if inner.len() > 0 {
            assert(inner[0] == text@[from as int]);
            assert(inner.last() == text@[to - 1]);
        } else if from < text@.len() {
            assert(is_white_space(text@[from as int]));
        }
        lemma_trim_unique(inner, trimmed(text@), text@);
    }
    out
}

/// `needle` stands in `text` at position `at`.
pub open spec fn stands_at(text: Seq<char>, needle: Seq<char>, at: int) -> bool {
    0 <= at && at + needle.len() <= text.len() && text.subrange(at, at + needle.len()) == needle
}

/// `needle` stands somewhere in `text`.
pub open spec fn contains(text: Seq<char>, needle: Seq<char>) -> bool {
    exists|at: int| stands_at(text, needle, at)
}

/// Whether `needle` stands in the characters at position `at`.
fn found_at(text: &Vec<char>, needle: &Vec<char>, at: usize) -> (r: bool)
    requires
        at + needle@.len() <= text@.len(),
    ensures
        r == stands_at(text@, needle@, at as int),
{
    let total: usize = text.len();
    let mut i: usize = 0;
    while i < needle.len()
        invariant
            i <= needle@.len(),
            total == text@.len(),
            at + needle@.len() <= text@.len(),
            forall|k: int| 0 <= k < i ==> text@[at + k] == #[trigger] needle@[k],
        decreases needle@.len() - i,
    {
        if text[at + i] != needle[i] {
            assert(text@.subrange(at as int, at + needle@.len())[i as int] == text@[at + i]);
            return false;
        }
        i = i + 1;
    }
    assert(text@.subrange(at as int, at + needle@.len()) =~= needle@);
    true
}

/// Whether `needle` stands somewhere in `text`.
pub fn has(text: &str, needle: &str) -> (r: bool)
    ensures
        r == contains(text@, needle@),
{
    let hay: Vec<char> = chars_of(text);
    let pin: Vec<char> = chars_of(needle);
    if pin.len() > hay.len() {
        return false;
    }
    let last: usize = hay.len() - pin.len();
    let mut at: usize = 0;
    while at < last
        invariant
            hay@ == text@,
            pin@ == needle@,
            last == hay@.len() - pin@.len(),
            at <= last,
            forall|k: int| 0 <= k < at ==> !#[trigger] stands_at(text@, needle@, k),
        decreases last - at,
    {
        if found_at(&hay, &pin, at) {
            return true;
        }
        at = at + 1;
    }
    found_at(&hay, &pin, last)
}

/// Whether `text` begins with `prefix`.
pub open spec fn begins_with(text: Seq<char>, prefix: Seq<char>) -> bool {
    stands_at(text, prefix, 0)
}

/// Whether `text` begins with `prefix`.
pub fn starts(text: &str, prefix: &str) -> (r: bool)
    ensures
        r == begins_with(text@, prefix@),
{
    let hay: Vec<char> = chars_of(text);
    let pin: Vec<char> = chars_of(prefix);
    if pin.len() > hay.len() {
        return false;
    }
    found_at(&hay, &pin, 0)
}

/// An ASCII capital as its small letter, any other character as it is.
pub open spec fn ascii_lower(c: char) -> char {
    if 'A' <= c <= 'Z' {
        ((c as u32 + 32) as u32) as char
    } else {
        c
    }
}

/// Every character of the text by `ascii_lower`.
pub open spec fn lower(text: Seq<char>) -> Seq<char> {
    text.map_values(|c: char| ascii_lower(c))
}

/// The text with ASCII capitals as small letters.
pub fn to_lower(text: &str) -> (r: String)
    ensures
        r@ == lower(text@),
{
    let chars: Vec<char> = chars_of(text);
    let mut out: String = String::new();
    let mut i: usize = 0;
    while i < chars.len()
        invariant
            i <= chars@.len(),
            chars@ == text@,
            out@ == lower(text@.take(i as int)),
        decreases chars@.len() - i,
    {
        let c: char = chars[i];
        let small: char = if 'A' <= c && c <= 'Z' {
            ((c as u8) + 32u8) as char
        } else {
            c
        };
        out.push(small);
        assert(lower(text@.take(i as int)).push(small) =~= lower(
            text@.take(i + 1),
        ));
        i = i + 1;
    }
    assert(text@.take(text@.len() as int) =~= text@);
    out
}

/// The decimal digit of `d`, for `d` below ten.
pub open spec fn digit(d: nat) -> char {
    (('0' as u32 + d) as u32) as char
}

/// The decimal numeral of `n`, without leading zeros.
pub open spec fn decimal(n: nat) -> Seq<char>
    decreases n,
{
    if n < 10 {
        seq![digit(n)]
    } else {
        decimal(n / 10).push(digit(n % 10))
    }
}

/// The decimal numeral of a number.
pub fn numeral(n: u64) -> (r: String)
    ensures
        r@ == decimal(n as nat),
    decreases n,
{
    let last: char = (48u8 + (n % 10) as u8) as char;
    if n < 10 {
        let mut out: String = String::new();
        out.push(last);
        assert(out@ =~= seq![digit(n as nat)]);
        out
    } else {
        let mut out: String = numeral(n / 10);
        out.push(last);
        out
    }
}

/// A list of texts with the same texts.
pub fn copy_all(texts: &Vec<String>) -> (r: Vec<String>)
    ensures
        r@ == texts@,
{
    let mut out: Vec<String> = Vec::new();
    let mut i: usize = 0;
    while i < texts.len()
        invariant
            i <= texts@.len(),
            out@ == texts@.take(i as int),
        decreases texts@.len() - i,
    {
        out.push(texts[i].clone());
        assert(texts@.take(i as int).push(texts@[i as int]) =~= texts@.take(i + 1));
        i = i + 1;
    }
    assert(texts@.take(texts@.len() as int) =~= texts@);
    out
}

/// The text without the copies of `c` at its end.
pub open spec fn trim_end_of(text: Seq<char>, c: char) -> Seq<char>
    decreases text.len(),
{
    if text.len() > 0 && text.last() == c {
        trim_end_of(text.drop_last(), c)
    } else {
        text
    }
}

/// The text without the copies of `c` at its end.
pub fn trim_end(text: &str, c: char) -> (r: String)
    ensures
        r@ == trim_end_of(text@, c),
{
    let chars: Vec<char> = chars_of(text);
    let mut to: usize = chars.len();
    assert(chars@.take(to as int) =~= text@);
    while to > 0 && chars[to - 1] == c
        invariant
            to <= chars@.len(),
            trim_end_of(chars@.take(to as int), c) == trim_end_of(text@, c),
        decreases to,
    {
        assert(chars@.take(to as int).drop_last() =~= chars@.take(to - 1));
        to = to - 1;
    }
    assert(chars@.subrange(0, to as int) =~= chars@.take(to as int));
    text_of(&chars, 0, to)
}

/// The characters of each text.
pub open spec fn views(texts: Seq<String>) -> Seq<Seq<char>> {
    texts.map_values(|t: String| t@)
}

/// The parts, one after the other, with a separator between them.
pub open spec fn join(parts: Seq<Seq<char>>, separator: Seq<char>) -> Seq<char>
    decreases parts.len(),
{
    if parts.len() == 0 {
        Seq::empty()
    } else if parts.len() == 1 {
        parts[0]
    } else {
        join(parts.drop_last(), separator) + separator + parts.last()
    }
}

/// The texts, one after the other, with a separator between them.
pub fn join_all(parts: &Vec<String>, separator: &str) -> (r: String)
    ensures
        r@ == join(views(parts@), separator@),
{
    let ghost all = views(parts@);
    let mut out: String = String::new();
    let mut i: usize = 0;
    assert(all.take(0) =~= Seq::empty());
    while i < parts.len()
        invariant
            i <= parts@.len(),
            all == views(parts@),
            out@ == join(all.take(i as int), separator@),
        decreases parts@.len() - i,
    {
        proof {
            assert(all.take(i + 1).drop_last() =~= all.take(i as int));
            assert(all.take(i + 1).last() == parts@[i as int]@);
        }
        if i == 0 {
            out = parts[i].clone();
        } else {
            out.append(separator);
            out.append(&parts[i]);
        }
        i = i + 1;
    }
    assert(all.take(parts@.len() as int) =~= all);
    out
}

/// The text with blanks before it, so that it is at least `width` characters long.
pub open spec fn pad_left(text: Seq<char>, width: nat) -> Seq<char>
    decreases width - text.len(),
{
    if text.len() >= width {
        text
    } else {
        pad_left(seq![' '] + text, width)
    }
}

/// The text with blanks before it, so that it is at least `width` characters long.
pub fn padded(text: &str, width: usize) -> (r: String)
    ensures
        r@ == pad_left(text@, width as nat),
{
    let mut out: String = text.to_owned();
    let mut len: usize = chars_of(text).len();
    while len < width
        invariant
            len == out@.len(),
            pad_left(out@, width as nat) == pad_left(text@, width as nat),
        decreases width - len,
    {
        let mut longer: String = String::new();
        longer.push(' ');
        longer.append(&out);
        assert(longer@ =~= seq![' '] + out@);
        out = longer;
        len = len + 1;
    }
    out
}

/// The text without the white space at its end.
pub open spec fn trim_end_space(text: Seq<char>) -> Seq<char>
    decreases text.len(),
{
    if text.len() > 0 && is_white_space(text.last()) {
        trim_end_space(text.drop_last())
    } else {
        text
    }
}

/// The text without the white space at its end.
pub fn trimmed_end(text: &str) -> (r: String)
    ensures
        r@ == trim_end_space(text@),
{
    let chars: Vec<char> = chars_of(text);
    let mut to: usize = chars.len();
    assert(chars@.take(to as int) =~= text@);
    while to > 0 && white_space(chars[to - 1])
        invariant
            to <= chars@.len(),
            trim_end_space(chars@.take(to as int)) == trim_end_space(text@),
        decreases to,
    {
        assert(chars@.take(to as int).drop_last() =~= chars@.take(to - 1));
        to = to - 1;
    }
    assert(chars@.subrange(0, to as int) =~= chars@.take(to as int));
    text_of(&chars, 0, to)
}

/// Whether a text is among the texts.
pub fn listed(texts: &Vec<String>, text: &str) -> (r: bool)
    ensures
        r == views(texts@).contains(text@),
{
    let mut i: usize = 0;
    while i < texts.len()
        invariant
            i <= texts@.len(),
            forall|k: int| 0 <= k < i ==> (#[trigger] texts@[k])@ != text@,
        decreases texts@.len() - i,
    {
        if same(&texts[i], text) {
            assert(views(texts@)[i as int] == text@);
            return true;
        }
        i = i + 1;
    }
    false
}

/// The text up to its first line feed.
pub open spec fn first_line(text: Seq<char>) -> Seq<char>
    decreases text.len(),
{
    if text.len() == 0 || text[0] == '\n' {
        Seq::empty()
    } else {
        seq![text[0]] + first_line(text.drop_first())
    }
}

/// The first line reaches up to a line feed that none comes before.
proof fn lemma_first_line(text: Seq<char>, end: int)
    requires
        0 <= end <= text.len(),
        forall|k: int| 0 <= k < end ==> text[k] != '\n',
        end < text.len() ==> text[end] == '\n',
    ensures
        first_line(text) == text.take(end),
    decreases text.len(),
{
    if end == 0 {
        assert(text.take(0) =~= Seq::empty());
    } else {
        let rest = text.drop_first();
        assert forall|k: int| 0 <= k < end - 1 implies rest[k] != '\n' by {
            assert(rest[k] == text[k + 1]);
        }
        lemma_first_line(rest, end - 1);
        assert(seq![text[0]] + rest.take(end - 1) =~= text.take(end));
    }
}

/// The text up to its first line feed.
pub fn line_before(text: &str) -> (r: String)
    ensures
        r@ == first_line(text@),
{
    let chars: Vec<char> = chars_of(text);
    let mut end: usize = 0;
    while end < chars.len() && chars[end] != '\n'
        invariant
            end <= chars@.len(),
            forall|k: int| 0 <= k < end ==> chars@[k] != '\n',
        decreases chars@.len() - end,
    {
        end = end + 1;
    }
    proof {
        lemma_first_line(text@, end as int);
        assert(chars@.subrange(0, end as int) =~= text@.take(end as int));
    }
    text_of(&chars, 0, end)
}

/// The number of bytes of a character's UTF-8 encoding.
pub open spec fn char_width(c: char) -> nat {
    encode_scalar(c as u32).len()
}

/// The number of bytes of a character's UTF-8 encoding.
pub fn width(c: char) -> (r: usize)
    ensures
        r == char_width(c),
        1 <= r <= 4,
{
    proof {
        char_is_scalar(c);
    }
    let code: u32 = c as u32;
    if code < 0x80 {
        1
    } else if code < 0x800 {
        2
    } else if code < 0x10000 {
        3
    } else {
        4
    }
}

/// The encoding of a text is the encoding of its parts.
pub proof fn lemma_encoding_of_parts(a: Seq<char>, b: Seq<char>)
    ensures
        encode_utf8(a + b) == encode_utf8(a) + encode_utf8(b),
    decreases a.len(),
{
    if a.len() == 0 {
        assert(a + b =~= b);
        assert(encode_utf8(a) + encode_utf8(b) =~= encode_utf8(b));
    } else {
        assert((a + b).drop_first() =~= a.drop_first() + b);
        lemma_encoding_of_parts(a.drop_first(), b);
        assert(encode_scalar(a[0] as u32) + (encode_utf8(a.drop_first()) + encode_utf8(b))
            =~= encode_utf8(a) + encode_utf8(b));
    }
}

/// One more character adds its width.
proof fn lemma_byte_len_push(a: Seq<char>, c: char)
    ensures
        byte_len(a.push(c)) == byte_len(a) + char_width(c),
{
    lemma_encoding_of_parts(a, seq![c]);
    assert(a.push(c) =~= a + seq![c]);
    assert(seq![c].drop_first() =~= Seq::<char>::empty());
    assert(encode_utf8(seq![c]) =~= encode_scalar(c as u32)) by {
        assert(encode_utf8(seq![c]) == encode_scalar(c as u32) + encode_utf8(
            Seq::<char>::empty(),
        ));
    }
}

/// The longest beginning of a text that fits into `limit` bytes.
pub open spec fn truncated(text: Seq<char>, limit: nat) -> Seq<char>
    decreases text.len(),
{
    if text.len() == 0 || byte_len(text) <= limit {
        text
    } else {
        truncated(text.drop_last(), limit)
    }
}

/// A beginning that fits, followed by a character that does not, is the longest that fits.
proof fn lemma_truncated(text: Seq<char>, limit: nat, end: int)
    requires
        0 <= end <= text.len(),
        byte_len(text.take(end)) <= limit,
        end < text.len() ==> byte_len(text.take(end + 1)) > limit,
    ensures
        truncated(text, limit) == text.take(end),
    decreases text.len(),
{
    if end == text.len() {
        assert(text.take(end) =~= text);
    } else {
        let tail = text.skip(end + 1);
        lemma_encoding_of_parts(text.take(end + 1), tail);
        assert(text.take(end + 1) + tail =~= text);
        let shorter = text.drop_last();
        assert(shorter.take(end) =~= text.take(end));
        if end < shorter.len() {
            assert(shorter.take(end + 1) =~= text.take(end + 1));
        }
        lemma_truncated(shorter, limit, end);
    }
}

/// The longest beginning of a text that fits into `limit` bytes.
pub fn truncate(text: &str, limit: usize) -> (r: String)
    ensures
        r@ == truncated(text@, limit as nat),
{
    let chars: Vec<char> = chars_of(text);
    let mut end: usize = 0;
    let mut used: usize = 0;
    assert(text@.take(0) =~= Seq::empty());
    while end < chars.len()
        invariant
            end <= chars@.len(),
            chars@ == text@,
            used <= limit,
            used == byte_len(text@.take(end as int)),
        decreases chars@.len() - end,
    {
        let w: usize = width(chars[end]);
        proof {
            assert(text@.take(end as int).push(text@[end as int]) =~= text@.take(end + 1));
            lemma_byte_len_push(text@.take(end as int), text@[end as int]);
        }
        if w > limit - used {
            proof {
                lemma_truncated(text@, limit as nat, end as int);
                assert(chars@.subrange(0, end as int) =~= text@.take(end as int));
            }
            return text_of(&chars, 0, end);
        }
        used = used + w;
        end = end + 1;
    }
    proof {
        lemma_truncated(text@, limit as nat, end as int);
        assert(chars@.subrange(0, end as int) =~= text@.take(end as int));
    }
    text_of(&chars, 0, end)
}

/// The decimal numeral of a signed number.
pub open spec fn signed_decimal(n: int) -> Seq<char> {
    if n < 0 {
        seq!['-'] + decimal((-n) as nat)
    } else {
        decimal(n as nat)
    }
}

/// The decimal numeral of a signed number.
pub fn signed_numeral(n: i64) -> (r: String)
    ensures
        r@ == signed_decimal(n as int),
{
    if n >= 0 {
        return numeral(n as u64);
    }
    let magnitude: u64 = (-(n + 1)) as u64 + 1;
    let mut out: String = String::new();
    out.push('-');
    assert(out@ =~= seq!['-']);
    let digits: String = numeral(magnitude);
    out.append(&digits);
    out
}

} // verus!
