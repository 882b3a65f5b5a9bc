//! What trimming, splitting, joining, ordering, numbers and padding come to, character by
//! character.

use vstd::prelude::*;

use crate::text::{
    Text, byte_len, decimal, digits, first_occurs_at, is_white_space, joined,
    lemma_split_nonempty, occurs_at, padded, pieces_of, split, split_once, text_less, texts,
    trim_end, trim_start, trimmed,
};

verus! {

/// The list of the texts of some strings has the text of each string in its place.
pub proof fn texts_are_in_place(strings: Seq<String>, i: int)
    ensures
        texts(strings).len() == strings.len(),
        0 <= i < strings.len() ==> texts(strings)[i] == strings[i]@,
{
}

/// The list of the pieces of a text has each piece in its place.
pub proof fn pieces_are_in_place(pieces: Seq<Vec<char>>, i: int)
    ensures
        pieces_of(pieces).len() == pieces.len(),
        0 <= i < pieces.len() ==> pieces_of(pieces)[i] == pieces[i]@,
{
}

/// White space is what Unicode calls so: these characters, and no others.
pub proof fn white_space_is_that_of_unicode(c: char)
    ensures
        is_white_space(c) <==> {
            ||| c == '\u{9}'
            ||| c == '\u{a}'
            ||| c == '\u{b}'
            ||| c == '\u{c}'
            ||| c == '\u{d}'
            ||| c == ' '
            ||| c == '\u{85}'
            ||| c == '\u{a0}'
            ||| c == '\u{1680}'
            ||| c == '\u{2000}'
            ||| c == '\u{2001}'
            ||| c == '\u{2002}'
            ||| c == '\u{2003}'
            ||| c == '\u{2004}'
            ||| c == '\u{2005}'
            ||| c == '\u{2006}'
            ||| c == '\u{2007}'
            ||| c == '\u{2008}'
            ||| c == '\u{2009}'
            ||| c == '\u{200a}'
            ||| c == '\u{2028}'
            ||| c == '\u{2029}'
            ||| c == '\u{202f}'
            ||| c == '\u{205f}'
            ||| c == '\u{3000}'
        },
{
}

proof fn lemma_trim_start_at(text: Text) -> (from: int)
    ensures
        0 <= from <= text.len(),
        trim_start(text) == text.skip(from),
        forall|k: int| 0 <= k < from ==> is_white_space(#[trigger] text[k]),
        from < text.len() ==> !is_white_space(text[from]),
    decreases text.len(),
{
    if text.len() > 0 && is_white_space(text.first()) {
        let rest = text.drop_first();
        let from = lemma_trim_start_at(rest);
        assert(rest.skip(from) =~= text.skip(from + 1));
        assert forall|k: int| 0 <= k < from + 1 implies is_white_space(#[trigger] text[k]) by {
            if k > 0 {
                assert(rest[k - 1] == text[k]);
            }
        }
        from + 1
    } else {
        assert(text.skip(0) =~= text);
        0
    }
}

proof fn lemma_trim_end_at(text: Text) -> (to: int)
    ensures
        0 <= to <= text.len(),
        trim_end(text) == text.take(to),
        forall|k: int| to <= k < text.len() ==> is_white_space(#[trigger] text[k]),
        to > 0 ==> !is_white_space(text[to - 1]),
    decreases text.len(),
{
    if text.len() > 0 && is_white_space(text.last()) {
        let rest = text.drop_last();
        let to = lemma_trim_end_at(rest);
        assert(rest.take(to) =~= text.take(to));
        assert forall|k: int| to <= k < text.len() implies is_white_space(#[trigger] text[k]) by {
            if k < rest.len() {
                assert(rest[k] == text[k]);
            }
        }
        to
    } else {
        assert(text.take(text.len() as int) =~= text);
        text.len() as int
    }
}

/// Trimming takes away what is white space at both ends, all of it and nothing else: what is
/// left stands in the text from one place to another, there is only white space outside of it,
/// and none at its ends.
pub proof fn trimming_takes_white_space_at_the_ends(text: Text) -> (r: (int, int))
    ensures
        0 <= r.0 <= r.1 <= text.len(),
        trimmed(text) == text.subrange(r.0, r.1),
        forall|k: int| 0 <= k < r.0 ==> is_white_space(#[trigger] text[k]),
        forall|k: int| r.1 <= k < text.len() ==> is_white_space(#[trigger] text[k]),
        r.0 < r.1 ==> !is_white_space(text[r.0]) && !is_white_space(text[r.1 - 1]),
{
    let from = lemma_trim_start_at(text);
    let rest = text.skip(from);
    let to = lemma_trim_end_at(rest);
    assert(rest.take(to) =~= text.subrange(from, from + to));
    assert forall|k: int| from + to <= k < text.len() implies is_white_space(
        #[trigger] text[k],
    ) by {
        assert(rest[k - from] == text[k]);
    }
    (from, from + to)
}

proof fn lemma_trimmed_between(text: Text, from: int, to: int)
    requires
        0 <= from <= to <= text.len(),
        forall|k: int| 0 <= k < from ==> is_white_space(#[trigger] text[k]),
        forall|k: int| to <= k < text.len() ==> is_white_space(#[trigger] text[k]),
        from < to ==> !is_white_space(text[from]) && !is_white_space(text[to - 1]),
    ensures
        trimmed(text) == text.subrange(from, to),
{
    let (a, b) = trimming_takes_white_space_at_the_ends(text);
    if from < to {
        if a < b {
            assert(a == from) by {
                if a < from {
                    assert(is_white_space(text[a]));
                }
                if from < a {
                    assert(is_white_space(text[from]));
                }
            }
            assert(b == to) by {
                if b < to {
                    assert(is_white_space(text[to - 1]));
                }
                if to < b {
                    assert(is_white_space(text[b - 1]));
                }
            }
        } else {
            assert(is_white_space(text[from]));
        }
    } else {
        if a < b {
            assert(is_white_space(text[a]));
        }
        assert(text.subrange(a, b) =~= text.subrange(from, to));
    }
}

/// White space put around a text that has none at its ends is what trimming takes away again.
pub proof fn trimming_undoes_putting_space_around(before: Text, text: Text, after: Text)
    requires
        forall|k: int| 0 <= k < before.len() ==> is_white_space(#[trigger] before[k]),
        forall|k: int| 0 <= k < after.len() ==> is_white_space(#[trigger] after[k]),
        text.len() > 0 ==> !is_white_space(text[0]) && !is_white_space(text[text.len() - 1]),
    ensures
        trimmed(before + text + after) == text,
{
    let all = before + text + after;
    let from = before.len() as int;
    let to = from + text.len();
    assert forall|k: int| to <= k < all.len() implies is_white_space(#[trigger] all[k]) by {
        assert(all[k] == after[k - to]);
    }
    lemma_trimmed_between(all, from, to);
    assert(all.subrange(from, to) =~= text);
}

/// A text without the separator is one piece.
pub proof fn text_without_separator_is_one_piece(text: Text, sep: char)
    requires
        !text.contains(sep),
    ensures
        split(text, sep) == seq![text],
    decreases text.len(),
{
    if text.len() > 0 {
        let rest = text.drop_last();
        assert(!rest.contains(sep)) by {
            if rest.contains(sep) {
                let k = choose|k: int| 0 <= k < rest.len() && rest[k] == sep;
                assert(text[k] == sep);
            }
        }
        text_without_separator_is_one_piece(rest, sep);
        assert(text[text.len() - 1] != sep);
        assert(rest.push(text.last()) =~= text);
        assert(split(text, sep) =~= seq![text]);
    } else {
        assert(text =~= Seq::empty());
    }
}

/// A separator divides a text: the pieces are those of what is before it and then those of
/// what is after it.
pub proof fn separator_divides(before: Text, sep: char, after: Text)
    ensures
        split(before.push(sep) + after, sep) == split(before, sep) + split(after, sep),
    decreases after.len(),
{
    let text = before.push(sep) + after;
    if after.len() == 0 {
        assert(text.drop_last() =~= before);
        assert(text.last() == sep);
        assert(split(text, sep) =~= split(before, sep) + split(after, sep));
    } else {
        let rest = after.drop_last();
        separator_divides(before, sep, rest);
        lemma_split_nonempty(rest, sep);
        assert(text.drop_last() =~= before.push(sep) + rest);
        assert(text.last() == after.last());
        assert(split(text, sep) =~= split(before, sep) + split(after, sep));
    }
}

/// Joining puts the separator between what is joined, and nowhere else.
pub proof fn joining_puts_separators_between(a: Seq<Text>, b: Seq<Text>, piece: Text, sep: Text)
    ensures
        joined(Seq::empty(), sep) == Seq::<char>::empty(),
        joined(seq![piece], sep) == piece,
        a.len() > 0 && b.len() > 0 ==> joined(a + b, sep) == joined(a, sep) + sep + joined(b, sep),
    decreases b.len(),
{
    if a.len() > 0 && b.len() > 0 {
        let all = a + b;
        assert(all.drop_last() =~= a + b.drop_last());
        assert(all.last() == b.last());
        if b.len() == 1 {
            assert(a + b.drop_last() =~= a);
            assert(joined(b, sep) == b.last());
        } else {
            joining_puts_separators_between(a, b.drop_last(), piece, sep);
            assert(joined(all, sep) =~= joined(a, sep) + sep + joined(b, sep));
        }
    }
}

/// Splitting once cuts a text at the first place where the pattern stands, and leaves out the
/// pattern only. If it does not, the pattern stands nowhere.
pub proof fn splitting_once_cuts_at_the_first_place(text: Text, pattern: Text)
    ensures
        match split_once(text, pattern) {
            Some((before, after)) => {
                &&& text == before + pattern + after
                &&& forall|j: int|
                    0 <= j < before.len() && j + pattern.len() <= text.len()
                        ==> #[trigger] text.subrange(j, j + pattern.len()) != pattern
            },
            None => forall|j: int|
                0 <= j && j + pattern.len() <= text.len() ==> #[trigger] text.subrange(
                    j,
                    j + pattern.len(),
                ) != pattern,
        },
{
    if exists|i: int| first_occurs_at(text, pattern, i) {
        let i = choose|i: int| first_occurs_at(text, pattern, i);
        let before = text.take(i);
        let after = text.skip(i + pattern.len());
        assert(text =~= before + text.subrange(i, i + pattern.len()) + after);
        assert forall|j: int|
            0 <= j < before.len() && j + pattern.len()
                <= text.len() implies #[trigger] text.subrange(j, j + pattern.len()) != pattern by {
            assert(!occurs_at(text, pattern, j));
        }
    } else {
        assert forall|j: int| 0 <= j && j + pattern.len() <= text.len() implies #[trigger] text.subrange(
            j,
            j + pattern.len(),
        ) != pattern by {
            lemma_not_at(text, pattern, j);
        }
    }
}

proof fn lemma_not_at(text: Text, pattern: Text, j: int)
    requires
        !exists|i: int| first_occurs_at(text, pattern, i),
    ensures
        !occurs_at(text, pattern, j),
    decreases j,
{
    if j >= 0 {
        assert forall|k: int| k < j implies !#[trigger] occurs_at(text, pattern, k) by {
            if k >= 0 {
                lemma_not_at(text, pattern, k);
            }
        }
        assert(!first_occurs_at(text, pattern, j));
    }
}

/// One text comes before another if, where they first differ, its character has the smaller
/// number, or if the other goes on where it ends.
pub proof fn order_is_decided_by_the_first_difference(a: Text, b: Text, i: int)
    requires
        0 <= i <= a.len(),
        i <= b.len(),
        a.take(i) == b.take(i),
        i < a.len() && i < b.len() ==> a[i] != b[i],
    ensures
        text_less(a, b) <==> i < b.len() && (i == a.len() || (a[i] as int) < (b[i] as int)),
    decreases i,
{
    if i > 0 {
        let c = a.drop_first();
        let d = b.drop_first();
        assert(a.take(i)[0] == b.take(i)[0]);
        assert(a.take(i)[0] == a[0] && b.take(i)[0] == b[0]);
        assert(a.first() == b.first());
        assert(i < a.len() ==> c[i - 1] == a[i]);
        assert(i < b.len() ==> d[i - 1] == b[i]);
        assert(c.take(i - 1) =~= a.take(i).skip(1));
        assert(d.take(i - 1) =~= b.take(i).skip(1));
        order_is_decided_by_the_first_difference(c, d, i - 1);
    }
}

/// The number that decimal digits stand for.
pub open spec fn number(text: Text) -> int
    decreases text.len(),
{
    if text.len() == 0 {
        0
    } else {
        10 * number(text.drop_last()) + (text.last() as int - '0' as int)
    }
}

proof fn lemma_digits(n: nat)
    ensures
        digits(n).len() > 0,
        number(digits(n)) == n,
        forall|i: int|
            0 <= i < digits(n).len() ==> '0' as int <= (#[trigger] digits(n)[i]) as int <= '9' as int,
        n > 0 ==> digits(n)[0] != '0',
        n == 0 ==> digits(n).len() == 1,
    decreases n,
{
    if n < 10 {
        let text = digits(n);
        assert(text.drop_last() =~= Seq::empty());
        assert(number(text.drop_last()) == 0);
    } else {
        lemma_digits(n / 10);
        let before = digits(n / 10);
        assert(digits(n).drop_last() =~= before);
        assert forall|i: int| 0 <= i < digits(n).len() implies '0' as int <= (
        #[trigger] digits(n)[i]) as int <= '9' as int by {
            if i < before.len() {
                assert(digits(n)[i] == before[i]);
            }
        }
        assert(digits(n)[0] == before[0]);
    }
}

/// A number in decimal is digits that stand for it, without zeros in front, and a minus sign
/// in front of those of a negative number.
pub proof fn decimal_stands_for_its_number(n: int)
    ensures
        n < 0 ==> decimal(n) == seq!['-'] + decimal(-n),
        n >= 0 ==> {
            &&& decimal(n).len() > 0
            &&& number(decimal(n)) == n
            &&& decimal(n).len() > 1 ==> decimal(n)[0] != '0'
        },
        forall|i: int|
            0 <= i < decimal(n).len() && n >= 0 ==> '0' as int <= (#[trigger] decimal(n)[i]) as int
                <= '9' as int,
{
    lemma_digits(
        if n < 0 {
            (-n) as nat
        } else {
            n as nat
        },
    );
}

/// Padding puts spaces in front of a text, just enough of them to fill the width.
pub proof fn padding_puts_spaces_in_front(text: Text, width: nat, i: int)
    ensures
        padded(text, width).len() == if text.len() < width {
            width
        } else {
            text.len()
        },
        padded(text, width).skip(padded(text, width).len() - text.len()) == text,
        0 <= i < padded(text, width).len() - text.len() ==> padded(text, width)[i] == ' ',
{
    let all = padded(text, width);
    assert(all.skip(all.len() - text.len()) =~= text);
}

/// The length of a text in bytes is that of its encoding.
pub proof fn bytes_are_those_of_the_encoding(text: Text)
    ensures
        byte_len(text) == vstd::utf8::encode_utf8(text).len() as usize,
{
}

} // verus!
