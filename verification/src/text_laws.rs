//! What the texts of the library say: numerals read back, lines and beginnings are cut where they
//! should be.
use vstd::prelude::*;
use vstd::string::*;
use crate::outside;
use crate::text;

verus! {

/// The number that digits read as, the last one counting ones.
pub open spec fn read_number(digits: Seq<char>) -> int
    decreases digits.len(),
{
    if digits.len() == 0 {
        0
    } else {
        10 * read_number(digits.drop_last()) + (digits.last() as int - '0' as int)
    }
}

/// A character is a digit.
pub open spec fn is_digit(c: char) -> bool {
    '0' <= c <= '9'
}

/// A numeral reads back as its number: it holds digits only, at least one, and no zero before
/// others.
pub proof fn law_numeral_reads_back(n: nat)
    ensures
        text::decimal(n).len() > 0,
        forall|i: int| 0 <= i < text::decimal(n).len() ==> is_digit(#[trigger] text::decimal(n)[i]),
        text::decimal(n).len() > 1 ==> text::decimal(n)[0] != '0',
        read_number(text::decimal(n)) == n,
    decreases n,
{
    let numeral = text::decimal(n);
    if n < 10 {
        assert(numeral.drop_last() =~= Seq::empty());
        assert(read_number(numeral.drop_last()) == 0);
        assert(text::digit(n) as int == '0' as int + n);
    } else {
        law_numeral_reads_back(n / 10);
        assert(numeral.drop_last() =~= text::decimal(n / 10));
        assert(text::digit(n % 10) as int == '0' as int + n % 10);
        assert(numeral[0] == text::decimal(n / 10)[0]);
        if text::decimal(n / 10).len() == 1 {
            assert(text::decimal(n / 10).drop_last() =~= Seq::empty());
            assert(read_number(text::decimal(n / 10).drop_last()) == 0);
        }
    }
}

/// Different numbers have different numerals, and a signed one differs from every other by its sign
/// or its digits.
pub proof fn law_signed_numerals_differ(a: int, b: int)
    requires
        a != b,
    ensures
        text::signed_decimal(a) != text::signed_decimal(b),
{
    law_numeral_reads_back(if a < 0 { (-a) as nat } else { a as nat });
    law_numeral_reads_back(if b < 0 { (-b) as nat } else { b as nat });
    if text::signed_decimal(a) == text::signed_decimal(b) {
        if a < 0 && b < 0 {
            assert(text::signed_decimal(a).skip(1) =~= text::decimal((-a) as nat));
            assert(text::signed_decimal(b).skip(1) =~= text::decimal((-b) as nat));
        } else if a < 0 {
            assert(text::signed_decimal(a)[0] == '-');
            assert(is_digit(text::decimal(b as nat)[0]));
        } else if b < 0 {
            assert(text::signed_decimal(b)[0] == '-');
            assert(is_digit(text::decimal(a as nat)[0]));
        }
    }
}

/// A signed numeral holds digits only, behind its sign where it has one.
pub proof fn law_signed_numeral_is_digits(n: int)
    ensures
        text::signed_decimal(n).len() > 0,
        forall|i: int|
            0 <= i < text::signed_decimal(n).len() ==> is_digit(
                #[trigger] text::signed_decimal(n)[i],
            ) || (i == 0 && text::signed_decimal(n)[i] == '-'),
        n < 0 <==> text::signed_decimal(n)[0] == '-',
{
    law_numeral_reads_back(if n < 0 { (-n) as nat } else { n as nat });
    if n < 0 {
        let digits = text::decimal((-n) as nat);
        assert forall|i: int| 1 <= i < text::signed_decimal(n).len() implies is_digit(
            #[trigger] text::signed_decimal(n)[i],
        ) by {
            assert(text::signed_decimal(n)[i] == digits[i - 1]);
        }
    } else {
        assert(is_digit(text::decimal(n as nat)[0]));
    }
}

/// A signed numeral tells where it ends and which number it is, where no digit follows.
pub proof fn law_signed_numerals_read_off(a: int, x: Seq<char>, b: int, y: Seq<char>)
    requires
        text::signed_decimal(a) + x == text::signed_decimal(b) + y,
        x.len() > 0,
        y.len() > 0,
        !is_digit(x[0]),
        !is_digit(y[0]),
    ensures
        a == b,
        x == y,
{
    let m = text::signed_decimal(a);
    let n = text::signed_decimal(b);
    law_signed_numeral_is_digits(a);
    law_signed_numeral_is_digits(b);
    if m.len() < n.len() {
        assert((m + x)[m.len() as int] == x[0]);
        assert((n + y)[m.len() as int] == n[m.len() as int]);
    }
    if n.len() < m.len() {
        assert((n + y)[n.len() as int] == y[0]);
        assert((m + x)[n.len() as int] == m[n.len() as int]);
    }
    assert((m + x).take(m.len() as int) =~= m);
    assert((n + y).take(n.len() as int) =~= n);
    assert((m + x).skip(m.len() as int) =~= x);
    assert((n + y).skip(n.len() as int) =~= y);
    if a != b {
        law_signed_numerals_differ(a, b);
    }
}

/// Different texts have different bytes.
pub proof fn law_different_texts_have_different_bytes(a: Seq<char>, b: Seq<char>)
    requires
        a != b,
    ensures
        vstd::utf8::encode_utf8(a) != vstd::utf8::encode_utf8(b),
{
    vstd::utf8::encode_utf8_decode_utf8(a);
    vstd::utf8::encode_utf8_decode_utf8(b);
}

/// Different bytes have different hexadecimal texts.
pub proof fn law_different_bytes_are_written_differently(a: Seq<u8>, b: Seq<u8>)
    requires
        outside::hex_of(a) == outside::hex_of(b),
    ensures
        a == b,
    decreases a.len(),
{
    let x = outside::hex_of(a);
    let y = outside::hex_of(b);
    if a.len() == 0 {
        if b.len() > 0 {
            assert(y.len() >= 2);
        }
        assert(a =~= b);
    } else if b.len() == 0 {
        assert(x.len() >= 2);
    } else {
        let front = outside::hex_of(a.drop_last());
        let back = outside::hex_of(b.drop_last());
        assert(x.drop_last().drop_last() =~= front);
        assert(y.drop_last().drop_last() =~= back);
        law_different_bytes_are_written_differently(a.drop_last(), b.drop_last());
        assert(x[x.len() - 1] == outside::hex_digit((a.last() % 16) as nat));
        assert(y[y.len() - 1] == outside::hex_digit((b.last() % 16) as nat));
        assert(x[x.len() - 2] == outside::hex_digit((a.last() / 16) as nat));
        assert(y[y.len() - 2] == outside::hex_digit((b.last() / 16) as nat));
        assert(a.last() == b.last());
        assert(a =~= a.drop_last().push(a.last()));
        assert(b =~= b.drop_last().push(b.last()));
    }
}

/// The digests of different texts differ, unless the digests of their bytes collide.
pub proof fn law_digests_differ(a: Seq<char>, b: Seq<char>)
    requires
        a != b,
        outside::sha256(vstd::utf8::encode_utf8(a)) == outside::sha256(vstd::utf8::encode_utf8(b))
            ==> vstd::utf8::encode_utf8(a) == vstd::utf8::encode_utf8(b),
    ensures
        outside::text_digest(a) != outside::text_digest(b),
{
    law_different_texts_have_different_bytes(a, b);
    if outside::text_digest(a) == outside::text_digest(b) {
        law_different_bytes_are_written_differently(
            outside::sha256(vstd::utf8::encode_utf8(a)),
            outside::sha256(vstd::utf8::encode_utf8(b)),
        );
    }
}

/// The first line is a beginning of the text without a line feed in it, and what follows it, if
/// anything, is one.
pub proof fn law_first_line_ends_at_a_line_feed(all: Seq<char>)
    ensures
        text::first_line(all).is_prefix_of(all),
        !text::first_line(all).contains('\n'),
        text::first_line(all).len() < all.len() ==> all[text::first_line(all).len() as int] == '\n',
    decreases all.len(),
{
    if all.len() > 0 && all[0] != '\n' {
        let rest = all.drop_first();
        law_first_line_ends_at_a_line_feed(rest);
        let line = text::first_line(all);
        let shorter = text::first_line(rest);
        assert(line =~= seq![all[0]] + shorter);
        assert forall|i: int| 0 <= i < line.len() implies line[i] == all[i] && line[i] != '\n' by {
            if i > 0 {
                assert(line[i] == shorter[i - 1]);
                assert(shorter.contains(shorter[i - 1]));
                assert(rest[i - 1] == all[i]);
            }
        }
        assert(line =~= all.subrange(0, line.len() as int));
    }
}

/// A truncated text is a beginning of the whole that fits, and with one more character it would
/// not.
pub proof fn law_truncation_keeps_what_fits(all: Seq<char>, limit: nat)
    ensures
        text::truncated(all, limit).is_prefix_of(all),
        vstd::utf8::encode_utf8(text::truncated(all, limit)).len() <= limit,
        text::truncated(all, limit).len() < all.len() ==> vstd::utf8::encode_utf8(
            all.take(1 + text::truncated(all, limit).len() as int),
        ).len() > limit,
    decreases all.len(),
{
    if all.len() == 0 {
        assert(vstd::utf8::encode_utf8(all).len() == 0);
    } else if text::byte_len(all) <= limit {
        assert(all =~= all.subrange(0, all.len() as int));
    } else {
        let shorter = all.drop_last();
        law_truncation_keeps_what_fits(shorter, limit);
        let kept = text::truncated(all, limit);
        assert(kept == text::truncated(shorter, limit));
        if kept.len() == shorter.len() {
            assert(all.take(1 + kept.len() as int) =~= all);
        } else {
            assert(shorter.take(1 + kept.len() as int) =~= all.take(1 + kept.len() as int));
        }
        assert(kept =~= all.subrange(0, kept.len() as int));
    }
}

/// Cutting a character off the end leaves a beginning that does not end in it, and nothing else is
/// cut off.
pub proof fn law_trimmed_end_is_the_character(all: Seq<char>, c: char)
    ensures
        text::trim_end_of(all, c).is_prefix_of(all),
        text::trim_end_of(all, c).len() > 0 ==> text::trim_end_of(all, c).last() != c,
        forall|i: int|
            text::trim_end_of(all, c).len() <= i < all.len() ==> #[trigger] all[i] == c,
    decreases all.len(),
{
    if all.len() > 0 && all.last() == c {
        law_trimmed_end_is_the_character(all.drop_last(), c);
        let kept = text::trim_end_of(all, c);
        assert(kept =~= all.subrange(0, kept.len() as int));
        assert forall|i: int| kept.len() <= i < all.len() implies #[trigger] all[i] == c by {
            if i < all.len() - 1 {
                assert(all.drop_last()[i] == all[i]);
            }
        }
    } else {
        assert(all =~= all.subrange(0, all.len() as int));
    }
}

/// Cutting the white space off the end leaves a beginning that does not end in any, and nothing else
/// is cut off.
pub proof fn law_trimmed_end_is_white_space(all: Seq<char>)
    ensures
        text::trim_end_space(all).is_prefix_of(all),
        text::trim_end_space(all).len() > 0 ==> !text::is_white_space(
            text::trim_end_space(all).last(),
        ),
        forall|i: int|
            text::trim_end_space(all).len() <= i < all.len() ==> text::is_white_space(
                #[trigger] all[i],
            ),
    decreases all.len(),
{
    if all.len() > 0 && text::is_white_space(all.last()) {
        law_trimmed_end_is_white_space(all.drop_last());
        let kept = text::trim_end_space(all);
        assert(kept =~= all.subrange(0, kept.len() as int));
        assert forall|i: int| kept.len() <= i < all.len() implies text::is_white_space(
            #[trigger] all[i],
        ) by {
            if i < all.len() - 1 {
                assert(all.drop_last()[i] == all[i]);
            }
        }
    } else {
        assert(all =~= all.subrange(0, all.len() as int));
    }
}

/// A blank, a tab, a line feed and a carriage return are white space; letters, digits and marks
/// are not.
pub proof fn law_white_space(c: char)
    ensures
        text::is_white_space(' '),
        text::is_white_space('\t'),
        text::is_white_space('\n'),
        text::is_white_space('\r'),
        '!' <= c <= '~' ==> !text::is_white_space(c),
{
}

/// A padded text ends in the text, has blanks before it, and is as long as was asked, or as the
/// text where that is longer.
pub proof fn law_padding_is_blanks_in_front(all: Seq<char>, width: nat)
    ensures
        text::pad_left(all, width).len() == if all.len() >= width {
            all.len()
        } else {
            width
        },
        text::pad_left(all, width).skip(text::pad_left(all, width).len() - all.len()) == all,
        forall|i: int|
            0 <= i < text::pad_left(all, width).len() - all.len() ==> #[trigger] text::pad_left(
                all,
                width,
            )[i] == ' ',
    decreases width - all.len(),
{
    let padded = text::pad_left(all, width);
    if all.len() < width {
        let longer = seq![' '] + all;
        law_padding_is_blanks_in_front(longer, width);
        let gap: int = width - all.len();
        assert(padded.skip(gap - 1) == longer);
        assert(padded.skip(gap) =~= longer.skip(1));
        assert(longer.skip(1) =~= all);
        assert(padded[gap - 1] == longer[0]);
    } else {
        assert(padded.skip(0) =~= all);
    }
}

/// A joined list begins with its first part, the separator behind it, and goes on with the rest
/// joined alike.
pub proof fn law_join_from_the_front(parts: Seq<Seq<char>>, separator: Seq<char>)
    ensures
        parts.len() == 0 ==> text::join(parts, separator).len() == 0,
        parts.len() == 1 ==> text::join(parts, separator) == parts[0],
        parts.len() > 1 ==> text::join(parts, separator) == parts[0] + separator + text::join(
            parts.skip(1),
            separator,
        ),
    decreases parts.len(),
{
    if parts.len() > 1 {
        let shorter = parts.drop_last();
        let rest = parts.skip(1);
        law_join_from_the_front(shorter, separator);
        assert(shorter[0] == parts[0]);
        assert(rest.last() == parts.last());
        if parts.len() == 2 {
            assert(text::join(rest, separator) == rest[0]);
            assert(text::join(shorter, separator) == parts[0]);
        } else {
            assert(shorter.skip(1) =~= rest.drop_last());
            assert(text::join(parts, separator) =~= parts[0] + separator + (text::join(
                rest.drop_last(),
                separator,
            ) + separator + rest.last()));
        }
    }
}

/// A lowered text has the capitals of the alphabet as small letters, and every other character as
/// it was, each in its place.
pub proof fn law_lowering_touches_capitals_only(all: Seq<char>, i: int)
    requires
        0 <= i < all.len(),
    ensures
        text::lower(all).len() == all.len(),
        !('A' <= all[i] <= 'Z') ==> text::lower(all)[i] == all[i],
        'A' <= all[i] <= 'Z' ==> text::lower(all)[i] as int - 'a' as int == all[i] as int
            - 'A' as int,
{
}

/// A JSON string opens and closes with a quote and holds no control character, so that it never
/// breaks a line.
pub proof fn law_json_strings_never_break_a_line(all: Seq<char>)
    ensures
        outside::json_string(all).len() >= 2,
        outside::json_string(all)[0] == '"',
        outside::json_string(all).last() == '"',
        forall|i: int|
            0 <= i < outside::json_string(all).len() ==> (#[trigger] outside::json_string(all)[i]
                as u32) >= 32,
{
    lemma_json_chars_are_plain(all);
    let written = outside::json_string(all);
    let inner = outside::json_chars(all);
    assert(written =~= seq!['"'] + inner + seq!['"']);
    assert forall|i: int| 0 <= i < written.len() implies (#[trigger] written[i] as u32) >= 32 by {
        if 0 < i < written.len() - 1 {
            assert(written[i] == inner[i - 1]);
        }
    }
}

/// The characters inside a JSON string are no control characters.
proof fn lemma_json_chars_are_plain(all: Seq<char>)
    ensures
        forall|i: int|
            0 <= i < outside::json_chars(all).len() ==> (#[trigger] outside::json_chars(all)[i]
                as u32) >= 32,
    decreases all.len(),
{
    if all.len() > 0 {
        lemma_json_chars_are_plain(all.drop_last());
        let inner = outside::json_chars(all);
        let front = outside::json_chars(all.drop_last());
        let c = all.last();
        let tail = outside::json_char(c);
        assert(inner =~= front + tail);
        assert forall|i: int| 0 <= i < tail.len() implies (#[trigger] tail[i] as u32) >= 32 by {}
        assert forall|i: int| 0 <= i < inner.len() implies (#[trigger] inner[i] as u32) >= 32 by {
            if i >= front.len() {
                assert(inner[i] == tail[i - front.len()]);
            }
        }
    }
}

/// A text has a part without white space at its ends, with nothing but white space around it.
proof fn lemma_trim_exists(all: Seq<char>)
    ensures
        exists|inner: Seq<char>| text::is_trim_of(inner, all),
    decreases all.len(),
{
    if all.len() == 0 {
        assert(all.subrange(0, 0) =~= all);
        assert(text::is_trim_of(all, all));
    } else if text::is_white_space(all[0]) {
        let rest = all.drop_first();
        lemma_trim_exists(rest);
        let inner = choose|inner: Seq<char>| text::is_trim_of(inner, rest);
        let (from, to) = choose|from: int, to: int|
            {
                &&& 0 <= from <= to <= rest.len()
                &&& inner == #[trigger] rest.subrange(from, to)
                &&& text::is_blank(rest.subrange(0, from))
                &&& text::is_blank(rest.subrange(to, rest.len() as int))
                &&& inner.len() > 0 ==> !text::is_white_space(inner[0]) && !text::is_white_space(
                    inner.last(),
                )
            };
        assert(inner =~= all.subrange(from + 1, to + 1));
        let front = all.subrange(0, from + 1);
        assert forall|i: int| 0 <= i < front.len() implies text::is_white_space(
            #[trigger] front[i],
        ) by {
            if i > 0 {
                assert(front[i] == rest.subrange(0, from)[i - 1]);
            }
        }
        assert(all.subrange(to + 1, all.len() as int) =~= rest.subrange(to, rest.len() as int));
        assert(text::is_trim_of(inner, all));
    } else if text::is_white_space(all.last()) {
        let rest = all.drop_last();
        lemma_trim_exists(rest);
        let inner = choose|inner: Seq<char>| text::is_trim_of(inner, rest);
        let (from, to) = choose|from: int, to: int|
            {
                &&& 0 <= from <= to <= rest.len()
                &&& inner == #[trigger] rest.subrange(from, to)
                &&& text::is_blank(rest.subrange(0, from))
                &&& text::is_blank(rest.subrange(to, rest.len() as int))
                &&& inner.len() > 0 ==> !text::is_white_space(inner[0]) && !text::is_white_space(
                    inner.last(),
                )
            };
        assert(inner =~= all.subrange(from, to));
        assert(all.subrange(0, from) =~= rest.subrange(0, from));
        let back = all.subrange(to, all.len() as int);
        assert forall|i: int| 0 <= i < back.len() implies text::is_white_space(
            #[trigger] back[i],
        ) by {
            if i < back.len() - 1 {
                assert(back[i] == rest.subrange(to, rest.len() as int)[i]);
            }
        }
        assert(text::is_trim_of(inner, all));
    } else {
        assert(all.subrange(0, all.len() as int) =~= all);
        assert(text::is_trim_of(all, all));
    }
}

/// A trimmed text is a part of the whole without white space at its ends, and around it there is
/// nothing but white space.
pub proof fn law_trimming_cuts_white_space_only(all: Seq<char>) -> (ends: (int, int))
    ensures
        0 <= ends.0 <= ends.1 <= all.len(),
        text::trimmed(all) == all.subrange(ends.0, ends.1),
        forall|i: int| 0 <= i < ends.0 ==> text::is_white_space(#[trigger] all[i]),
        forall|i: int| ends.1 <= i < all.len() ==> text::is_white_space(#[trigger] all[i]),
        text::trimmed(all).len() > 0 ==> !text::is_white_space(text::trimmed(all)[0])
            && !text::is_white_space(text::trimmed(all).last()),
{
    lemma_trim_exists(all);
    let inner = text::trimmed(all);
    let (from, to) = choose|from: int, to: int|
        {
            &&& 0 <= from <= to <= all.len()
            &&& inner == #[trigger] all.subrange(from, to)
            &&& text::is_blank(all.subrange(0, from))
            &&& text::is_blank(all.subrange(to, all.len() as int))
            &&& inner.len() > 0 ==> !text::is_white_space(inner[0]) && !text::is_white_space(
                inner.last(),
            )
        };
    assert forall|i: int| 0 <= i < from implies text::is_white_space(#[trigger] all[i]) by {
        assert(all.subrange(0, from)[i] == all[i]);
    }
    assert forall|i: int| to <= i < all.len() implies text::is_white_space(
        #[trigger] all[i],
    ) by {
        assert(all.subrange(to, all.len() as int)[i - to] == all[i]);
    }
    (from, to)
}

/// Texts are ordered by their first difference: the smaller character there comes first, and a
/// beginning comes before what goes on from it.
pub proof fn law_order_is_by_the_first_difference(a: Seq<char>, b: Seq<char>, at: nat)
    requires
        at <= a.len(),
        at <= b.len(),
        forall|i: int| 0 <= i < at ==> a[i] == b[i],
    ensures
        at < a.len() && at < b.len() && a[at as int] < b[at as int] ==> text::lt(a, b)
            && !text::lt(b, a),
        at == a.len() && at < b.len() ==> text::lt(a, b) && !text::lt(b, a),
{
    lemma_order_from(a, b, at, 0);
    lemma_order_from(b, a, at, 0);
}

/// The order of texts that agree up to a place is decided there.
proof fn lemma_order_from(a: Seq<char>, b: Seq<char>, at: nat, from: nat)
    requires
        at <= a.len(),
        at <= b.len(),
        from <= at,
        forall|i: int| 0 <= i < at ==> a[i] == b[i],
    ensures
        text::lt_from(a, b, from) == text::lt_from(a, b, at),
    decreases at - from,
{
    if from < at {
        assert(a[from as int] == b[from as int]);
        lemma_order_from(a, b, at, from + 1);
    }
}

/// A text stands in another one where its characters do, one by one, from some place on.
pub proof fn law_text_stands_where_its_characters_do(all: Seq<char>, needle: Seq<char>, at: int)
    requires
        0 <= at,
        at + needle.len() <= all.len(),
        forall|i: int| 0 <= i < needle.len() ==> all[at + i] == #[trigger] needle[i],
    ensures
        text::contains(all, needle),
        at == 0 ==> text::begins_with(all, needle),
{
    assert(all.subrange(at, at + needle.len()) =~= needle);
    assert(text::stands_at(all, needle, at));
}

/// A text that is longer than another one does not stand in it, and one that begins it agrees with
/// it character by character.
pub proof fn law_beginning_agrees(all: Seq<char>, prefix: Seq<char>, i: int)
    requires
        text::begins_with(all, prefix),
        0 <= i < prefix.len(),
    ensures
        prefix.len() <= all.len(),
        all[i] == prefix[i],
{
    assert(all.subrange(0, prefix.len() as int)[i] == all[i]);
}

} // verus!
