//! The calls into outside crates: digests, JSON text, the clock and random identifiers.
use vstd::prelude::*;
use sha2::Digest;

verus! {

/// The SHA-256 digest of a sequence of bytes.
pub uninterp spec fn sha256(bytes: Seq<u8>) -> Seq<u8>;

/// `sha2::Sha256::digest`: the digest of the bytes, which is thirty-two bytes long and depends on
/// the bytes alone.
#[verifier::external_body]
pub(crate) fn sha256_digest(bytes: &[u8]) -> (r: Vec<u8>)
    ensures
        r@ == sha256(bytes@),
        r@.len() == 32,
{
    sha2::Sha256::digest(bytes).to_vec()
}

/// The small hexadecimal digit of `d`, for `d` below sixteen.
pub open spec fn hex_digit(d: nat) -> char {
    if d < 10 {
        (('0' as u32 + d) as u32) as char
    } else {
        (('a' as u32 + d - 10) as u32) as char
    }
}

/// Two hexadecimal digits for each byte.
pub open spec fn hex_of(bytes: Seq<u8>) -> Seq<char>
    decreases bytes.len(),
{
    if bytes.len() == 0 {
        Seq::empty()
    } else {
        hex_of(bytes.drop_last()).push(hex_digit((bytes.last() / 16) as nat)).push(
            hex_digit((bytes.last() % 16) as nat),
        )
    }
}

/// The small hexadecimal digit of a number below sixteen.
fn hex_char(d: u8) -> (r: char)
    requires
        d < 16,
    ensures
        r == hex_digit(d as nat),
{
    if d < 10 {
        (48u8 + d) as char
    } else {
        (87u8 + d) as char
    }
}

/// Bytes as hexadecimal digits.
pub fn hex(bytes: &[u8]) -> (r: String)
    ensures
        r@ == hex_of(bytes@),
{
    let mut out: String = String::new();
    let mut i: usize = 0;
    assert(bytes@.take(0) =~= Seq::empty());
    while i < bytes.len()
        invariant
            i <= bytes@.len(),
            out@ == hex_of(bytes@.take(i as int)),
        decreases bytes@.len() - i,
    {
        assert(bytes@.take(i + 1).drop_last() =~= bytes@.take(i as int));
        out.push(hex_char(bytes[i] / 16));
        out.push(hex_char(bytes[i] % 16));
        i = i + 1;
    }
    assert(bytes@.take(bytes@.len() as int) =~= bytes@);
    out
}

/// The hexadecimal SHA-256 digest of a text's UTF-8 bytes.
pub open spec fn text_digest(text: Seq<char>) -> Seq<char> {
    hex_of(sha256(vstd::utf8::encode_utf8(text)))
}

/// A small hexadecimal digit.
pub open spec fn is_hex(c: char) -> bool {
    '0' <= c <= '9' || 'a' <= c <= 'f'
}

/// The shape of a hexadecimal SHA-256 digest: sixty-four small hexadecimal digits.
pub open spec fn is_digest(text: Seq<char>) -> bool {
    &&& text.len() == 64
    &&& forall|i: int| 0 <= i < text.len() ==> is_hex(#[trigger] text[i])
}

/// The text of bytes has two small hexadecimal digits for each.
proof fn lemma_hex_shape(bytes: Seq<u8>)
    ensures
        hex_of(bytes).len() == 2 * bytes.len(),
        forall|i: int| 0 <= i < hex_of(bytes).len() ==> is_hex(#[trigger] hex_of(bytes)[i]),
    decreases bytes.len(),
{
    if bytes.len() > 0 {
        lemma_hex_shape(bytes.drop_last());
        assert(is_hex(hex_digit((bytes.last() / 16) as nat)));
        assert(is_hex(hex_digit((bytes.last() % 16) as nat)));
    }
}

/// The hexadecimal SHA-256 digest of a text.
pub fn digest_text(text: &str) -> (r: String)
    ensures
        r@ == text_digest(text@),
        is_digest(r@),
{
    let digest: Vec<u8> = sha256_digest(text.as_bytes());
    proof {
        lemma_hex_shape(digest@);
    }
    hex(digest.as_slice())
}

/// A character inside a JSON string.
pub open spec fn json_char(c: char) -> Seq<char> {
    let code: u32 = c as u32;
    if c == '"' {
        seq!['\\', '"']
    } else if c == '\\' {
        seq!['\\', '\\']
    } else if code == 8 {
        seq!['\\', 'b']
    } else if code == 9 {
        seq!['\\', 't']
    } else if code == 10 {
        seq!['\\', 'n']
    } else if code == 12 {
        seq!['\\', 'f']
    } else if code == 13 {
        seq!['\\', 'r']
    } else if code < 32 {
        seq!['\\', 'u', '0', '0', hex_digit((code / 16) as nat), hex_digit((code % 16) as nat)]
    } else {
        seq![c]
    }
}

/// The characters of a JSON string, without its quotes.
pub open spec fn json_chars(text: Seq<char>) -> Seq<char>
    decreases text.len(),
{
    if text.len() == 0 {
        Seq::empty()
    } else {
        json_chars(text.drop_last()) + json_char(text.last())
    }
}

/// A text as a JSON string.
pub open spec fn json_string(text: Seq<char>) -> Seq<char> {
    seq!['"'] + json_chars(text) + seq!['"']
}

/// The characters of a JSON string, from its first one.
proof fn lemma_json_chars_from_front(text: Seq<char>)
    requires
        text.len() > 0,
    ensures
        json_chars(text) == json_char(text[0]) + json_chars(text.skip(1)),
    decreases text.len(),
{
    let rest = text.skip(1);
    if text.len() == 1 {
        assert(text.drop_last() =~= Seq::empty());
        assert(json_chars(text.drop_last()) =~= Seq::empty());
        assert(json_chars(rest) =~= Seq::empty());
        assert(json_chars(text) =~= json_char(text[0]));
    } else {
        let head = text.drop_last();
        lemma_json_chars_from_front(head);
        assert(head.skip(1) =~= rest.drop_last());
        assert(head[0] == text[0] && rest.last() == text.last());
        assert(json_chars(text) =~= json_char(text[0]) + (json_chars(rest.drop_last()) + json_char(
            rest.last(),
        )));
    }
}

/// Different digits are written differently.
proof fn lemma_hex_digit_unique(a: nat, b: nat)
    requires
        a < 16,
        b < 16,
        hex_digit(a) == hex_digit(b),
    ensures
        a == b,
{
}

/// A written character tells where it ends and which one it is, whatever follows.
proof fn lemma_json_char_unique(a: char, b: char, c: Seq<char>, d: Seq<char>)
    requires
        json_char(a) + c == json_char(b) + d,
    ensures
        a == b,
        c == d,
{
    let left = json_char(a) + c;
    let right = json_char(b) + d;
    assert(left[0] == json_char(a)[0] && right[0] == json_char(b)[0]);
    if json_char(a).len() > 1 {
        assert(left[1] == json_char(a)[1]);
        assert(json_char(b)[0] == '\\');
        assert(json_char(b).len() > 1);
        assert(right[1] == json_char(b)[1]);
        if json_char(a).len() == 6 {
            assert(json_char(b).len() == 6);
            assert(left[4] == json_char(a)[4] && right[4] == json_char(b)[4]);
            assert(left[5] == json_char(a)[5] && right[5] == json_char(b)[5]);
            let x = a as u32;
            let y = b as u32;
            lemma_hex_digit_unique((x / 16) as nat, (y / 16) as nat);
            lemma_hex_digit_unique((x % 16) as nat, (y % 16) as nat);
            assert(x == y);
        }
    }
    assert(json_char(a).len() == json_char(b).len());
    assert(left.skip(json_char(a).len() as int) =~= c);
    assert(right.skip(json_char(b).len() as int) =~= d);
}

/// The characters of a string with at least one do not begin with a quote.
proof fn lemma_json_chars_open(text: Seq<char>, after: Seq<char>)
    requires
        text.len() > 0,
    ensures
        (json_chars(text) + seq!['"'] + after).len() > 0,
        (json_chars(text) + seq!['"'] + after)[0] != '"',
        json_chars(text) + seq!['"'] + after == json_char(text[0]) + (json_chars(text.skip(1))
            + seq!['"'] + after),
{
    lemma_json_chars_from_front(text);
    let whole = json_chars(text) + seq!['"'] + after;
    assert(whole =~= json_char(text[0]) + (json_chars(text.skip(1)) + seq!['"'] + after));
    assert(json_char(text[0]).len() > 0 && json_char(text[0])[0] != '"');
    assert(whole[0] == json_char(text[0])[0]);
}

/// The end of a string is its quote.
proof fn lemma_json_chars_end(after: Seq<char>)
    ensures
        json_chars(Seq::empty()) + seq!['"'] + after == seq!['"'] + after,
        (seq!['"'] + after)[0] == '"',
        (seq!['"'] + after).skip(1) == after,
{
    assert(json_chars(Seq::empty()) + seq!['"'] + after =~= seq!['"'] + after);
    assert((seq!['"'] + after).skip(1) =~= after);
}

/// The characters of a string tell where it ends and what it holds, whatever follows its quote.
proof fn lemma_json_chars_unique(a: Seq<char>, b: Seq<char>, c: Seq<char>, d: Seq<char>)
    requires
        json_chars(a) + seq!['"'] + c == json_chars(b) + seq!['"'] + d,
    ensures
        a == b,
        c == d,
    decreases a.len(),
{
    if a.len() > 0 {
        lemma_json_chars_open(a, c);
    } else {
        assert(a =~= Seq::empty());
        lemma_json_chars_end(c);
    }
    if b.len() > 0 {
        lemma_json_chars_open(b, d);
    } else {
        assert(b =~= Seq::empty());
        lemma_json_chars_end(d);
    }
    if a.len() > 0 && b.len() > 0 {
        lemma_json_char_unique(
            a[0],
            b[0],
            json_chars(a.skip(1)) + seq!['"'] + c,
            json_chars(b.skip(1)) + seq!['"'] + d,
        );
        lemma_json_chars_unique(a.skip(1), b.skip(1), c, d);
        assert(a =~= seq![a[0]] + a.skip(1));
        assert(b =~= seq![b[0]] + b.skip(1));
    }
}

/// A JSON string tells where it ends and which text it holds: no other text, followed by anything,
/// is written the same.
pub proof fn law_json_strings_are_unambiguous(
    a: Seq<char>,
    b: Seq<char>,
    after_a: Seq<char>,
    after_b: Seq<char>,
)
    requires
        json_string(a) + after_a == json_string(b) + after_b,
    ensures
        a == b,
        after_a == after_b,
{
    let left = json_string(a) + after_a;
    let right = json_string(b) + after_b;
    assert(left.skip(1) =~= json_chars(a) + seq!['"'] + after_a);
    assert(right.skip(1) =~= json_chars(b) + seq!['"'] + after_b);
    lemma_json_chars_unique(a, b, after_a, after_b);
}

/// `serde_json::to_string` of a text: the quoted text, with quotes, backslashes and control
/// characters escaped. Writing into memory, it does not fail.
#[verifier::external_body]
pub(crate) fn json_quote(text: &str) -> (r: Result<String, String>)
    ensures
        r is Ok,
        r->Ok_0@ == json_string(text@),
{
    serde_json::to_string(text).map_err(|error| error.to_string())
}

/// A random identifier in its five groups of small hexadecimal digits: the third group opens with
/// the version, the fourth with the variant.
pub open spec fn is_random_uuid(text: Seq<char>) -> bool {
    &&& text.len() == 36
    &&& forall|i: int|
        #![trigger text[i]]
        0 <= i < 36 ==> if i == 8 || i == 13 || i == 18 || i == 23 {
            text[i] == '-'
        } else {
            is_hex(text[i])
        }
    &&& text[14] == '4'
    &&& (text[19] == '8' || text[19] == '9' || text[19] == 'a' || text[19] == 'b')
}

/// `uuid::Uuid::new_v4`, as text: an identifier of version four, in small letters and with hyphens.
/// Its digits are left to chance.
#[verifier::external_body]
pub(crate) fn random_uuid() -> (r: String)
    ensures
        is_random_uuid(r@),
{
    uuid::Uuid::new_v4().to_string()
}

/// `chrono::Utc::now` in milliseconds since the epoch. Nothing is claimed of the time it reads.
#[verifier::external_body]
pub(crate) fn clock_millis() -> i64 {
    chrono::Utc::now().timestamp_millis()
}

/// A decimal digit.
pub open spec fn is_decimal(c: char) -> bool {
    '0' <= c <= '9'
}

/// The mark of an RFC 3339 text of universal time with milliseconds at a place counted from the end
/// of its year; none where a digit stands.
pub open spec fn clock_mark(place: int) -> Option<char> {
    if place == 0 || place == 3 {
        Some('-')
    } else if place == 6 {
        Some('T')
    } else if place == 9 || place == 12 {
        Some(':')
    } else if place == 15 {
        Some('.')
    } else if place == 19 {
        Some('Z')
    } else {
        None
    }
}

/// The text is a year, in four digits or in a sign and at least four.
pub open spec fn is_year(text: Seq<char>) -> bool {
    &&& text.len() >= 4
    &&& if text.len() == 4 {
        is_decimal(text[0])
    } else {
        text[0] == '+' || text[0] == '-'
    }
    &&& forall|i: int| 1 <= i < text.len() ==> is_decimal(#[trigger] text[i])
}

/// The shape of an RFC 3339 text of universal time with milliseconds: the year, and then the marks
/// and the digits of month, day, hour, minute, second and millisecond, up to the final `Z`.
pub open spec fn is_clock_text(text: Seq<char>) -> bool {
    let year = text.len() - 20;
    &&& year >= 4
    &&& is_year(text.take(year))
    &&& forall|i: int|
        year <= i < text.len() ==> match clock_mark(i - year) {
            Some(mark) => #[trigger] text[i] == mark,
            None => is_decimal(text[i]),
        }
}

/// `chrono::Utc::now` as an RFC 3339 text with milliseconds, which ends in the `Z` of universal
/// time. Nothing is claimed of the time it reads.
#[verifier::external_body]
pub(crate) fn clock_rfc3339() -> (r: String)
    ensures
        is_clock_text(r@),
{
    chrono::Utc::now().to_rfc3339_opts(chrono::SecondsFormat::Millis, true)
}

/// A text as std's `Debug` shows it.
pub uninterp spec fn debug_quoted(text: Seq<char>) -> Seq<char>;

/// std's `Debug` of a text: the quoted text with escapes, which depends on the text alone.
#[verifier::external_body]
pub(crate) fn debug_quote(text: &str) -> (r: String)
    ensures
        r@ == debug_quoted(text@),
{
    format!("{:?}", text)
}

/// The members of the JSON object that bytes hold: the key of each and, where its value is an
/// array, the JSON text of every element. An error's words where the bytes hold no JSON object.
pub uninterp spec fn json_members(bytes: Seq<u8>) -> Result<
    Seq<(Seq<char>, Option<Seq<Seq<char>>>)>,
    Seq<char>,
>;

/// The members of a parsed object, as their characters.
pub open spec fn members_view(members: Seq<(String, Option<Vec<String>>)>) -> Seq<
    (Seq<char>, Option<Seq<Seq<char>>>),
> {
    members.map_values(
        |member: (String, Option<Vec<String>>)|
            (
                member.0@,
                match member.1 {
                    Some(elements) => Some(crate::text::views(elements@)),
                    None => None,
                },
            ),
    )
}

/// `serde_json::from_slice` into a map of values: the members of the object that the bytes hold,
/// with the elements of the arrays among them written back as JSON. The result depends on the bytes
/// alone.
#[verifier::external_body]
pub(crate) fn parse_json_members(bytes: &[u8]) -> (r: Result<
    Vec<(String, Option<Vec<String>>)>,
    String,
>)
    ensures
        match r {
            Ok(members) => json_members(bytes@) == Ok::<
                Seq<(Seq<char>, Option<Seq<Seq<char>>>)>,
                Seq<char>,
            >(members_view(members@)),
            Err(words) => json_members(bytes@) == Err::<
                Seq<(Seq<char>, Option<Seq<Seq<char>>>)>,
                Seq<char>,
            >(words@),
        },
{
    let parsed = serde_json::from_slice::<serde_json::Map<String, serde_json::Value>>(bytes);
    let root = parsed.map_err(|error| error.to_string())?;
    let elements = |value: serde_json::Value| -> Option<Vec<String>> {
        Some(value.as_array()?.iter().map(|element| element.to_string()).collect())
    };
    Ok(root.into_iter().map(|(key, value)| (key, elements(value))).collect())
}

/// The JSON value of a text, written without white space; an error's words where the text holds no
/// JSON value.
pub uninterp spec fn json_compact(text: Seq<char>) -> Result<Seq<char>, Seq<char>>;

/// `serde_json::from_str` into a value and `serde_json::to_string` of it: the value of the text,
/// written without white space. The result depends on the text alone.
#[verifier::external_body]
pub(crate) fn compact_json(text: &str) -> (r: Result<String, String>)
    ensures
        match r {
            Ok(compact) => json_compact(text@) == Ok::<Seq<char>, Seq<char>>(compact@),
            Err(words) => json_compact(text@) == Err::<Seq<char>, Seq<char>>(words@),
        },
{
    let value: serde_json::Value = serde_json::from_str(text).map_err(|error| error.to_string())?;
    serde_json::to_string(&value).map_err(|error| error.to_string())
}

/// Two texts hold the same JSON value.
pub uninterp spec fn json_equal(a: Seq<char>, b: Seq<char>) -> bool;

/// `==` of two `serde_json::Value`s that are parsed from texts. The result depends on the texts
/// alone, and a text that holds a JSON value holds the same value as itself.
#[verifier::external_body]
pub(crate) fn same_json(a: &str, b: &str) -> (r: bool)
    ensures
        r == json_equal(a@, b@),
        a@ == b@ && json_compact(a@) is Ok ==> r,
{
    let left = serde_json::from_str::<serde_json::Value>(a);
    let right = serde_json::from_str::<serde_json::Value>(b);
    matches!((left, right), (Ok(left), Ok(right)) if left == right)
}

} // verus!
