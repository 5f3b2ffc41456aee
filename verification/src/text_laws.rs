//! What the readings and writings of short pieces of text come down to, character by character.

use crate::text::{
    all_digits, all_white, be32, decimal, digits_value, first_index, hexadecimal, is_digit,
    is_white_space, le32, lemma_first_index, lemma_first_index_is, lemma_first_index_none, lower,
    lowered, optional_text, padded_left, padded_right, pieces, starts_with, texts, trimmed,
    trimmed_end, trimmed_start, unsigned_value,
};
use vstd::prelude::*;

verus! {

/// The characters that count as digits, as letters to be made small, and as white space, by
/// their code points.
pub proof fn law_character_classes(c: char)
    ensures
        is_digit(c) <==> 48 <= c as int <= 57,
        lower(c) as int == (if 65 <= c as int <= 90 {
            c as int + 32
        } else {
            c as int
        }),
        is_white_space(c) <==> {
            let n = c as int;
            ||| 9 <= n <= 13
            ||| n == 0x20
            ||| n == 0x85
            ||| n == 0xa0
            ||| n == 0x1680
            ||| 0x2000 <= n <= 0x200a
            ||| n == 0x2028
            ||| n == 0x2029
            ||| n == 0x202f
            ||| n == 0x205f
            ||| n == 0x3000
        },
{
}

/// Trimming at the start takes off white space alone, and all of it.
pub proof fn law_trimmed_start(s: Seq<char>)
    ensures
        trimmed_start(s).len() <= s.len(),
        s.skip(s.len() - trimmed_start(s).len()) == trimmed_start(s),
        all_white(s.take(s.len() - trimmed_start(s).len())),
        trimmed_start(s).len() > 0 ==> !is_white_space(trimmed_start(s)[0]),
    decreases s.len(),
{
    if s.len() > 0 && is_white_space(s[0]) {
        let rest = s.skip(1);
        law_trimmed_start(rest);
        let n = s.len() - trimmed_start(s).len();
        assert(s.skip(n) =~= rest.skip(n - 1));
        assert forall|i: int| 0 <= i < n implies is_white_space(#[trigger] s.take(n)[i]) by {
            if i > 0 {
                assert(rest.take(n - 1)[i - 1] == s.take(n)[i]);
            }
        }
    } else {
        assert(s.skip(0) =~= s);
    }
}

/// Trimming at the end takes off white space alone, and all of it.
pub proof fn law_trimmed_end(s: Seq<char>)
    ensures
        trimmed_end(s).len() <= s.len(),
        s.take(trimmed_end(s).len() as int) == trimmed_end(s),
        all_white(s.skip(trimmed_end(s).len() as int)),
        trimmed_end(s).len() > 0 ==> !is_white_space(trimmed_end(s).last()),
    decreases s.len(),
{
    if s.len() > 0 && is_white_space(s.last()) {
        let rest = s.drop_last();
        law_trimmed_end(rest);
        let n = trimmed_end(s).len() as int;
        assert(s.take(n) =~= rest.take(n));
        assert forall|i: int| 0 <= i < s.skip(n).len() implies is_white_space(
            #[trigger] s.skip(n)[i],
        ) by {
            if i < rest.skip(n).len() {
                assert(rest.skip(n)[i] == s.skip(n)[i]);
            }
        }
    } else {
        assert(s.take(s.len() as int) =~= s);
    }
}

/// What is trimmed off is white space on either side; what is left has none at its ends.
pub proof fn law_trimmed(s: Seq<char>)
    ensures
        exists|lead: Seq<char>, tail: Seq<char>|
            #![trigger all_white(lead), all_white(tail)]
            all_white(lead) && all_white(tail) && s == lead + trimmed(s) + tail,
        trimmed(s).len() > 0 ==> !is_white_space(trimmed(s)[0]) && !is_white_space(
            trimmed(s).last(),
        ),
{
    let t = trimmed_start(s);
    law_trimmed_start(s);
    law_trimmed_end(t);
    let n = s.len() - t.len();
    let m = trimmed_end(t).len() as int;
    let lead = s.take(n);
    let tail = t.skip(m);
    assert(all_white(lead) && all_white(tail));
    assert(t =~= t.take(m) + tail);
    assert(s =~= lead + t);
    assert(s =~= lead + trimmed(s) + tail);
}

/// The pieces with `sep` between them.
pub open spec fn joined(parts: Seq<Seq<char>>, sep: char) -> Seq<char>
    decreases parts.len(),
{
    if parts.len() == 0 {
        Seq::empty()
    } else if parts.len() == 1 {
        parts[0]
    } else {
        parts[0] + seq![sep] + joined(parts.skip(1), sep)
    }
}

/// Splitting and joining undo each other, and no piece holds the separator.
pub proof fn law_pieces(s: Seq<char>, sep: char)
    ensures
        pieces(s, sep).len() >= 1,
        joined(pieces(s, sep), sep) == s,
        forall|i: int| 0 <= i < pieces(s, sep).len() ==> !(#[trigger] pieces(s, sep)[i]).contains(
            sep,
        ),
    decreases s.len(),
{
    lemma_first_index(s, sep);
    match first_index(s, sep) {
        Some(i) => {
            let head = s.take(i);
            let rest = s.skip(i + 1);
            law_pieces(rest, sep);
            let all = pieces(s, sep);
            assert(all =~= seq![head] + pieces(rest, sep));
            assert(all.skip(1) =~= pieces(rest, sep));
            assert(s =~= head + seq![sep] + rest);
            assert(!head.contains(sep)) by {
                assert forall|j: int| 0 <= j < head.len() implies head[j] != sep by {
                    assert(head[j] == s[j]);
                }
            }
            assert forall|k: int| 0 <= k < all.len() implies !(#[trigger] all[k]).contains(
                sep,
            ) by {
                if k > 0 {
                    assert(all[k] == pieces(rest, sep)[k - 1]);
                }
            }
        },
        None => {
            let all = pieces(s, sep);
            assert(all =~= seq![s]);
            assert(!s.contains(sep));
        },
    }
}

/// Text without the separator is one piece; in front of a separator it is the first piece.
pub proof fn law_pieces_from_the_left(head: Seq<char>, rest: Seq<char>, sep: char)
    requires
        !head.contains(sep),
    ensures
        pieces(head, sep) == seq![head],
        pieces(head + seq![sep] + rest, sep) == seq![head] + pieces(rest, sep),
{
    assert forall|j: int| 0 <= j < head.len() implies #[trigger] head[j] != sep by {
        assert(head.contains(head[j]));
    }
    lemma_first_index_none(head, sep);
    assert(pieces(head, sep) =~= seq![head]);
    let s = head + seq![sep] + rest;
    let n = head.len() as int;
    assert forall|j: int| 0 <= j < n implies #[trigger] s[j] != sep by {
        assert(s[j] == head[j]);
    }
    lemma_first_index_is(s, sep, n);
    assert(s.take(n) =~= head);
    assert(s.skip(n + 1) =~= rest);
}

/// A decimal number is its last digit behind the number of its tens; zero is a single digit and
/// no other number starts with one.
pub proof fn law_decimal_digits(n: nat)
    ensures
        decimal(n).len() > 0,
        decimal(n).last() as int == 48 + n % 10,
        n < 10 ==> decimal(n).len() == 1,
        n >= 10 ==> decimal(n).drop_last() == decimal(n / 10),
        n > 0 ==> decimal(n)[0] as int != 48,
    decreases n,
{
    if n >= 10 {
        law_decimal_digits(n / 10);
        assert(decimal(n).drop_last() =~= decimal(n / 10));
    }
}

/// Reading digits: nothing is zero, and each further digit adds to ten times what was before.
pub proof fn law_digits_value(s: Seq<char>, c: char)
    requires
        48 <= c as int <= 57,
    ensures
        digits_value(Seq::<char>::empty()) == 0,
        digits_value(s.push(c)) == 10 * digits_value(s) + (c as int - 48),
        all_digits(s.push(c)) <==> all_digits(s),
        all_digits(Seq::<char>::empty()),
{
    assert(s.push(c).drop_last() =~= s);
    if all_digits(s) {
        assert forall|i: int| 0 <= i < s.push(c).len() implies is_digit(
            #[trigger] s.push(c)[i],
        ) by {
            if i < s.len() {
                assert(is_digit(s[i]));
            }
        }
    }
    if all_digits(s.push(c)) {
        assert forall|i: int| 0 <= i < s.len() implies is_digit(#[trigger] s[i]) by {
            assert(is_digit(s.push(c)[i]));
        }
    }
}

/// Digits, with or without a plus sign before them, are the number they write, unless it is too
/// large.
pub proof fn law_unsigned_reads_digits(d: Seq<char>, max: nat)
    requires
        d.len() > 0,
        forall|i: int| 0 <= i < d.len() ==> 48 <= (#[trigger] d[i]) as int <= 57,
    ensures
        ({
            let n = if digits_value(d) <= max {
                Some(digits_value(d))
            } else {
                None
            };
            &&& unsigned_value(d, max) == n
            &&& unsigned_value(seq!['+'] + d, max) == n
        }),
{
    assert forall|i: int| 0 <= i < d.len() implies is_digit(#[trigger] d[i]) by {
        assert(48 <= d[i] as int <= 57);
    }
    assert(48 <= d[0] as int <= 57);
    let s = seq!['+'] + d;
    assert(s.skip(1) =~= d);
}

/// Anything else writes no number: no digits at all, or a character that is none, except for a
/// plus sign in front.
pub proof fn law_unsigned_refuses(s: Seq<char>, max: nat, i: int)
    requires
        s.len() == 0 || s == seq!['+'] || (0 <= i < s.len() && !(48 <= s[i] as int <= 57) && (i > 0
            || s[0] != '+')),
    ensures
        unsigned_value(s, max) is None,
{
    if s.len() > 0 && s != seq!['+'] {
        if s[0] == '+' {
            assert(!is_digit(s.skip(1)[i - 1]));
        } else {
            assert(!is_digit(s[i]));
        }
    } else if s.len() > 0 {
        assert(s.skip(1).len() == 0);
    }
}

/// Small letters: as many characters, each the small one.
pub proof fn law_lowered(s: Seq<char>, i: int)
    ensures
        lowered(s).len() == s.len(),
        0 <= i < s.len() ==> lowered(s)[i] as int == (if 65 <= s[i] as int <= 90 {
            s[i] as int + 32
        } else {
            s[i] as int
        }),
{
}

/// A text starts with another exactly if it is that one with something behind it.
pub proof fn law_starts_with(s: Seq<char>, prefix: Seq<char>)
    ensures
        starts_with(s, prefix) <==> exists|rest: Seq<char>| s == #[trigger] (prefix + rest),
{
    let n = prefix.len() as int;
    if starts_with(s, prefix) {
        assert(s =~= prefix + s.skip(n));
    }
    if exists|rest: Seq<char>| s == #[trigger] (prefix + rest) {
        assert(s.take(n) =~= prefix);
    }
}

/// Padding fills up with spaces on one side, and cuts nothing off.
pub proof fn law_padded(s: Seq<char>, width: nat, i: int)
    ensures
        ({
            let n = if s.len() < width {
                width as int
            } else {
                s.len() as int
            };
            let gap = n - s.len();
            &&& padded_right(s, width).len() == n
            &&& padded_left(s, width).len() == n
            &&& 0 <= i < s.len() ==> padded_right(s, width)[i] == s[i] && padded_left(s, width)[gap
                + i] == s[i]
            &&& 0 <= i < gap ==> padded_right(s, width)[s.len() + i] == ' ' && padded_left(
                s,
                width,
            )[i] == ' '
        }),
{
}

/// A hexadecimal number of a given width: its last digit stands for the sixteenth part's rest,
/// in 0 to 9 and a to f.
pub proof fn law_hexadecimal_digits(n: nat, width: nat)
    ensures
        hexadecimal(n, width).len() == width,
        width > 0 ==> hexadecimal(n, width).drop_last() == hexadecimal(n / 16, (width - 1) as nat),
        width > 0 ==> hexadecimal(n, width).last() as int == (if n % 16 < 10 {
            48 + n % 16
        } else {
            87 + n % 16
        }),
    decreases width,
{
    if width > 0 {
        law_hexadecimal_digits(n / 16, (width - 1) as nat);
        assert(hexadecimal(n, width).drop_last() =~= hexadecimal(n / 16, (width - 1) as nat));
    }
}

/// Four bytes with the lowest first, or with the highest first, are the number they come from.
pub proof fn law_four_bytes(s: Seq<u8>, at: int, n: u32)
    ensures
        s[at] == n % 256 && s[at + 1] == n / 256 % 256 && s[at + 2] == n / 65536 % 256 && s[at + 3]
            == n / 16777216 ==> le32(s, at) == n,
        s[at] == n / 16777216 && s[at + 1] == n / 65536 % 256 && s[at + 2] == n / 256 % 256 && s[at
            + 3] == n % 256 ==> be32(s, at) == n,
        0 <= le32(s, at) <= u32::MAX,
        0 <= be32(s, at) <= u32::MAX,
{
    let m = n as int;
    assert(m == m % 256 + 256 * (m / 256 % 256) + 65536 * (m / 65536 % 256) + 16777216 * (m
        / 16777216));
}

/// The text of an optional or repeated string is the string's own.
pub proof fn law_texts(o: Option<String>, v: Seq<String>, i: int)
    ensures
        o is None ==> optional_text(o) is None,
        o matches Some(s) ==> optional_text(o) == Some(s@),
        texts(v).len() == v.len(),
        0 <= i < v.len() ==> texts(v)[i] == v[i]@,
{
}

} // verus!
