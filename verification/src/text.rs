//! Text as sequences of characters: trimming, splitting, joining, ordering and
//! the decimal form of numbers.

use vstd::prelude::*;

verus! {

/// What a string holds: its characters in order.
pub type Text = Seq<char>;

/// `String::push`: the character is appended to the string.
pub assume_specification[ String::push ](string: &mut String, ch: char)
    ensures
        final(string)@ == old(string)@.push(ch),
;

/// The characters of each string of a list.
pub open spec fn texts(strings: Seq<String>) -> Seq<Text> {
    strings.map_values(|s: String| s@)
}

/// The characters with the Unicode property `White_Space`.
pub open spec fn is_white_space(c: char) -> bool {
    let n = c as int;
    ||| 0x09 <= n <= 0x0d
    ||| n == 0x20
    ||| n == 0x85
    ||| n == 0xa0
    ||| n == 0x1680
    ||| 0x2000 <= n <= 0x200a
    ||| n == 0x2028
    ||| n == 0x2029
    ||| n == 0x202f
    ||| n == 0x205f
    ||| n == 0x3000
}

/// `text` without the white space at its start.
pub open spec fn trim_start(text: Text) -> Text
    decreases text.len(),
{
    if text.len() > 0 && is_white_space(text.first()) {
        trim_start(text.drop_first())
    } else {
        text
    }
}

/// `text` without the white space at its end.
pub open spec fn trim_end(text: Text) -> Text
    decreases text.len(),
{
    if text.len() > 0 && is_white_space(text.last()) {
        trim_end(text.drop_last())
    } else {
        text
    }
}

/// `text` without the white space at both ends.
pub open spec fn trimmed(text: Text) -> Text {
    trim_end(trim_start(text))
}

/// The pieces of `text` between the occurrences of `sep`. There is always at
/// least one piece, and two separators in a row enclose an empty one.
pub open spec fn split(text: Text, sep: char) -> Seq<Text>
    decreases text.len(),
{
    if text.len() == 0 {
        seq![Seq::empty()]
    } else {
        let before = split(text.drop_last(), sep);
        if text.last() == sep {
            before.push(Seq::empty())
        } else {
            before.drop_last().push(before.last().push(text.last()))
        }
    }
}

/// The pieces one after the other, with `sep` between neighbours.
pub open spec fn joined(pieces: Seq<Text>, sep: Text) -> Text
    decreases pieces.len(),
{
    if pieces.len() == 0 {
        Seq::empty()
    } else if pieces.len() == 1 {
        pieces[0]
    } else {
        joined(pieces.drop_last(), sep) + sep + pieces.last()
    }
}

/// `pattern` stands in `text` from index `i` on.
pub open spec fn occurs_at(text: Text, pattern: Text, i: int) -> bool {
    &&& 0 <= i
    &&& i + pattern.len() <= text.len()
    &&& text.subrange(i, i + pattern.len()) == pattern
}

/// `pattern` stands in `text` from index `i` on, and nowhere before it.
pub open spec fn first_occurs_at(text: Text, pattern: Text, i: int) -> bool {
    &&& occurs_at(text, pattern, i)
    &&& forall|j: int| j < i ==> !#[trigger] occurs_at(text, pattern, j)
}

/// What stands before and after the first occurrence of `pattern` in `text`,
/// if there is one.
pub open spec fn split_once(text: Text, pattern: Text) -> Option<(Text, Text)> {
    if exists|i: int| first_occurs_at(text, pattern, i) {
        let i = choose|i: int| first_occurs_at(text, pattern, i);
        Some((text.take(i), text.skip(i + pattern.len())))
    } else {
        None
    }
}

/// The lexicographic order of texts by code point.
pub open spec fn text_less(a: Text, b: Text) -> bool
    decreases a.len(),
{
    b.len() > 0 && (a.len() == 0 || (a.first() as int) < (b.first() as int) || (a.first()
        == b.first() && text_less(a.drop_first(), b.drop_first())))
}

/// The decimal digit that stands for `d`.
pub open spec fn digit(d: int) -> char {
    (('0' as int) + d) as char
}

/// The decimal digits of `n`, without leading zeros.
pub open spec fn digits(n: nat) -> Text
    decreases n,
{
    if n < 10 {
        seq![digit(n as int)]
    } else {
        digits(n / 10).push(digit((n % 10) as int))
    }
}

/// `n` in decimal, with a minus sign in front if it is negative.
pub open spec fn decimal(n: int) -> Text {
    if n < 0 {
        seq!['-'] + digits((-n) as nat)
    } else {
        digits(n as nat)
    }
}

/// `text` with spaces in front, so that it has at least `width` characters.
pub open spec fn padded(text: Text, width: nat) -> Text {
    let fill = if text.len() < width { (width - text.len()) as nat } else { 0 };
    Seq::new(fill, |i: int| ' ') + text
}

/// The number of bytes that `text` takes in UTF-8.
pub open spec fn byte_len(text: Text) -> usize {
    vstd::utf8::encode_utf8(text).len() as usize
}

/// Whether `c` has the Unicode property `White_Space`.
pub fn white_space(c: char) -> (r: bool)
    ensures
        r == is_white_space(c),
{
    ('\u{9}' <= c && c <= '\u{d}') || c == ' ' || c == '\u{85}' || c == '\u{a0}' || c == '\u{1680}'
        || ('\u{2000}' <= c && c <= '\u{200a}') || c == '\u{2028}' || c == '\u{2029}' || c
        == '\u{202f}' || c == '\u{205f}' || c == '\u{3000}'
}

/// The characters of `s`.
pub fn to_chars(s: &str) -> (r: Vec<char>)
    ensures
        r@ == s@,
{
    let mut out: Vec<char> = Vec::new();
    for c in it: s.chars()
        invariant
            it.seq() == s@,
            out@ == s@.take(it.index() as int),
    {
        out.push(c);
        assert(s@.take(it.index() + 1) =~= s@.take(it.index() as int).push(c));
    }
    assert(s@.take(s@.len() as int) =~= s@);
    out
}

/// The string of the given characters.
pub fn from_chars(chars: &Vec<char>) -> (r: String)
    ensures
        r@ == chars@,
{
    let mut out = String::new();
    for i in 0..chars.len()
        invariant
            out@ == chars@.take(i as int),
    {
        out.push(chars[i]);
        assert(chars@.take(i + 1) =~= chars@.take(i as int).push(chars@[i as int]));
    }
    assert(chars@.take(chars@.len() as int) =~= chars@);
    out
}

/// The characters from index `from` up to index `to`.
pub fn copy_range(chars: &Vec<char>, from: usize, to: usize) -> (r: Vec<char>)
    requires
        from <= to <= chars@.len(),
    ensures
        r@ == chars@.subrange(from as int, to as int),
{
    let mut out: Vec<char> = Vec::new();
    let mut i: usize = from;
    while i < to
        invariant
            from <= i <= to <= chars@.len(),
            out@ == chars@.subrange(from as int, i as int),
        decreases to - i,
    {
        out.push(chars[i]);
        i += 1;
        assert(chars@.subrange(from as int, i as int) =~= chars@.subrange(
            from as int,
            i - 1,
        ).push(chars@[i - 1]));
    }
    out
}


proof fn lemma_trim_start(text: Text, n: int)
    requires
        0 <= n <= text.len(),
        forall|j: int| 0 <= j < n ==> is_white_space(#[trigger] text[j]),
        n < text.len() ==> !is_white_space(text[n]),
    ensures
        trim_start(text) == text.skip(n),
    decreases n,
{
    if n > 0 {
        assert(is_white_space(text[0]));
        lemma_trim_start(text.drop_first(), n - 1);
        assert(text.drop_first().skip(n - 1) =~= text.skip(n));
    } else {
        assert(text.skip(0) =~= text);
    }
}

proof fn lemma_trim_end(text: Text, n: int)
    requires
        0 <= n <= text.len(),
        forall|j: int| n <= j < text.len() ==> is_white_space(#[trigger] text[j]),
        n > 0 ==> !is_white_space(text[n - 1]),
    ensures
        trim_end(text) == text.take(n),
    decreases text.len() - n,
{
    if n < text.len() {
        assert(is_white_space(text[text.len() - 1]));
        lemma_trim_end(text.drop_last(), n);
        assert(text.drop_last().take(n) =~= text.take(n));
    } else {
        assert(text.take(n) =~= text);
    }
}

/// The characters without the white space at both ends.
pub fn trim_chars(chars: &Vec<char>) -> (r: Vec<char>)
    ensures
        r@ == trimmed(chars@),
{
    let mut from: usize = 0;
    while from < chars.len() && white_space(chars[from])
        invariant
            from <= chars@.len(),
            forall|j: int| 0 <= j < from ==> is_white_space(#[trigger] chars@[j]),
        decreases chars@.len() - from,
    {
        from += 1;
    }
    proof {
        lemma_trim_start(chars@, from as int);
    }
    let mut to: usize = chars.len();
    while to > from && white_space(chars[to - 1])
        invariant
            from <= to <= chars@.len(),
            forall|j: int| to <= j < chars@.len() ==> is_white_space(#[trigger] chars@[j]),
        decreases to,
    {
        to -= 1;
    }
    proof {
        let rest = chars@.skip(from as int);
        assert forall|j: int| to - from <= j < rest.len() implies is_white_space(
            #[trigger] rest[j],
        ) by {
            assert(rest[j] == chars@[j + from]);
        }
        lemma_trim_end(rest, to - from);
        assert(rest.take(to - from) =~= chars@.subrange(from as int, to as int));
    }
    copy_range(chars, from, to)
}

/// `s` without the white space at both ends.
pub fn trim(s: &str) -> (r: String)
    ensures
        r@ == trimmed(s@),
{
    from_chars(&trim_chars(&to_chars(s)))
}

/// The characters of each piece of a list.
pub open spec fn pieces_of(pieces: Seq<Vec<char>>) -> Seq<Text> {
    pieces.map_values(|p: Vec<char>| p@)
}

/// Splitting gives at least one piece.
pub proof fn lemma_split_nonempty(text: Text, sep: char)
    ensures
        split(text, sep).len() >= 1,
    decreases text.len(),
{
    if text.len() > 0 {
        lemma_split_nonempty(text.drop_last(), sep);
    }
}

/// The pieces between the occurrences of `sep`.
pub fn split_chars(chars: &Vec<char>, sep: char) -> (r: Vec<Vec<char>>)
    ensures
        pieces_of(r@) == split(chars@, sep),
{
    let mut out: Vec<Vec<char>> = Vec::new();
    let mut current: Vec<char> = Vec::new();
    assert(chars@.take(0) =~= Seq::empty());
    assert(pieces_of(out@).push(current@) =~= seq![Seq::empty()]);
    for i in 0..chars.len()
        invariant
            pieces_of(out@).push(current@) == split(chars@.take(i as int), sep),
    {
        let c: char = chars[i];
        let ghost before = pieces_of(out@);
        let ghost piece = current@;
        assert(chars@.take(i + 1).drop_last() =~= chars@.take(i as int));
        assert(chars@.take(i + 1).last() == c);
        assert(before.push(piece).drop_last() =~= before);
        if c == sep {
            out.push(current);
            current = Vec::new();
            assert(pieces_of(out@) =~= before.push(piece));
        } else {
            current.push(c);
        }
    }
    assert(chars@.take(chars@.len() as int) =~= chars@);
    let ghost before = pieces_of(out@);
    let ghost piece = current@;
    out.push(current);
    assert(pieces_of(out@) =~= before.push(piece));
    out
}

/// Whether `pattern` stands in `chars` from index `at` on.
fn matches_at(chars: &Vec<char>, pattern: &Vec<char>, at: usize) -> (r: bool)
    ensures
        r == occurs_at(chars@, pattern@, at as int),
{
    if chars.len() < at || chars.len() - at < pattern.len() {
        return false;
    }
    let ghost here = chars@.subrange(at as int, at + pattern@.len());
    for j in 0..pattern.len()
        invariant
            at + pattern@.len() <= chars@.len() <= usize::MAX,
            here == chars@.subrange(at as int, at + pattern@.len()),
            forall|k: int| 0 <= k < j ==> here[k] == #[trigger] pattern@[k],
    {
        if chars[at + j] != pattern[j] {
            assert(here[j as int] != pattern@[j as int]);
            return false;
        }
        assert(here[j as int] == pattern@[j as int]);
    }
    assert(here =~= pattern@);
    true
}

/// The first occurrence is where a text is split.
pub proof fn lemma_split_once(text: Text, pattern: Text, i: int)
    requires
        first_occurs_at(text, pattern, i),
    ensures
        split_once(text, pattern) == Some((text.take(i), text.skip(i + pattern.len()))),
{
    let k = choose|k: int| first_occurs_at(text, pattern, k);
    assert(first_occurs_at(text, pattern, k));
    assert(k == i) by {
        if k < i {
            assert(!occurs_at(text, pattern, k));
        }
        if i < k {
            assert(!occurs_at(text, pattern, i));
        }
    }
}

/// What stands before and after the first occurrence of `pattern`.
pub fn split_once_chars(chars: &Vec<char>, pattern: &Vec<char>) -> (r: Option<
    (Vec<char>, Vec<char>),
>)
    ensures
        match r {
            Some((before, after)) => split_once(chars@, pattern@) == Some((before@, after@)),
            None => split_once(chars@, pattern@) is None,
        },
{
    let mut i: usize = 0;
    while i <= chars.len() && chars.len() - i >= pattern.len()
        invariant
            i <= chars@.len() + 1,
            forall|j: int| j < i ==> !#[trigger] occurs_at(chars@, pattern@, j),
        decreases chars@.len() + 1 - i,
    {
        if matches_at(chars, pattern, i) {
            proof {
                lemma_split_once(chars@, pattern@, i as int);
            }
            let before = copy_range(chars, 0, i);
            let after = copy_range(chars, i + pattern.len(), chars.len());
            assert(before@ =~= chars@.take(i as int));
            assert(after@ =~= chars@.skip(i + pattern@.len()));
            return Some((before, after));
        }
        if i == chars.len() {
            assert forall|j: int| !#[trigger] occurs_at(chars@, pattern@, j) by {
                if j > i {
                }
            }
            return None;
        }
        i += 1;
    }
    assert forall|j: int| !#[trigger] occurs_at(chars@, pattern@, j) by {
        if j >= i {
        }
    }
    None
}

/// The strings from index `from` on, one after the other, with `sep` between
/// neighbours.
pub fn join_from(pieces: &Vec<String>, from: usize, sep: &str) -> (r: String)
    requires
        from <= pieces@.len(),
    ensures
        r@ == joined(texts(pieces@).skip(from as int), sep@),
{
    let mut out = String::new();
    let ghost all = texts(pieces@).skip(from as int);
    let mut i: usize = from;
    while i < pieces.len()
        invariant
            from <= i <= pieces@.len(),
            all == texts(pieces@).skip(from as int),
            out@ == joined(all.take(i - from), sep@),
        decreases pieces@.len() - i,
    {
        let ghost so_far = all.take(i - from);
        let ghost next = all.take(i + 1 - from);
        assert(next.drop_last() =~= so_far);
        assert(next.last() == pieces@[i as int]@);
        if i > from {
            out.append(sep);
        }
        out.append(pieces[i].as_str());
        i += 1;
        assert(out@ =~= joined(next, sep@));
    }
    assert(all.take(pieces@.len() - from) =~= all);
    out
}


/// Whether `a` comes before `b` in lexicographic order.
pub fn less(a: &str, b: &str) -> (r: bool)
    ensures
        r == text_less(a@, b@),
{
    let left = to_chars(a);
    let right = to_chars(b);
    let mut i: usize = 0;
    assert(left@.skip(0) =~= left@);
    assert(right@.skip(0) =~= right@);
    while i < left.len() && i < right.len()
        invariant
            left@ == a@,
            right@ == b@,
            i <= left@.len(),
            i <= right@.len(),
            text_less(a@, b@) == text_less(left@.skip(i as int), right@.skip(i as int)),
        decreases left@.len() - i,
    {
        let l: char = left[i];
        let r: char = right[i];
        assert(left@.skip(i as int).first() == l);
        assert(right@.skip(i as int).first() == r);
        if l != r {
            return l < r;
        }
        assert(left@.skip(i as int).drop_first() =~= left@.skip(i + 1));
        assert(right@.skip(i as int).drop_first() =~= right@.skip(i + 1));
        i += 1;
    }
    i < right.len()
}

/// No text comes before itself.
pub proof fn text_less_irreflexive(a: Text)
    ensures
        !text_less(a, a),
    decreases a.len(),
{
    if a.len() > 0 {
        text_less_irreflexive(a.drop_first());
    }
}

/// What comes before a text comes before everything after that text.
pub proof fn text_less_transitive(a: Text, b: Text, c: Text)
    requires
        text_less(a, b),
        text_less(b, c),
    ensures
        text_less(a, c),
    decreases a.len(),
{
    if a.len() > 0 && a.first() == b.first() && b.first() == c.first() {
        text_less_transitive(a.drop_first(), b.drop_first(), c.drop_first());
    }
}

/// Of two different texts one comes before the other.
pub proof fn text_less_total(a: Text, b: Text)
    ensures
        a == b || text_less(a, b) || text_less(b, a),
    decreases a.len(),
{
    if a.len() > 0 && b.len() > 0 {
        text_less_total(a.drop_first(), b.drop_first());
        if a.first() == b.first() && a.drop_first() == b.drop_first() {
            assert(a =~= seq![a.first()] + a.drop_first());
            assert(b =~= seq![b.first()] + b.drop_first());
        }
    } else if a.len() == 0 && b.len() == 0 {
        assert(a =~= b);
    }
}

/// The decimal digit that stands for `d`.
fn digit_char(d: u32) -> (r: char)
    requires
        d < 10,
    ensures
        r == digit(d as int),
{
    let code: u8 = ('0' as u8) + (d as u8);
    code as char
}

/// The decimal digits of `n`.
fn digits_string(n: u32) -> (r: String)
    ensures
        r@ == digits(n as nat),
    decreases n,
{
    if n < 10 {
        let mut out = String::new();
        out.push(digit_char(n));
        assert(out@ =~= digits(n as nat));
        out
    } else {
        let mut out = digits_string(n / 10);
        out.push(digit_char(n % 10));
        out
    }
}

/// `n` in decimal.
pub fn decimal_string(n: i32) -> (r: String)
    ensures
        r@ == decimal(n as int),
{
    if n < 0 {
        let mut out = String::new();
        out.push('-');
        let magnitude: u32 = (-(n as i64)) as u32;
        out.append(digits_string(magnitude).as_str());
        assert(out@ =~= decimal(n as int));
        out
    } else {
        digits_string(n as u32)
    }
}

/// `s` with spaces in front, so that it has at least `width` characters.
pub fn pad(s: &str, width: usize) -> (r: String)
    ensures
        r@ == padded(s@, width as nat),
{
    let count: usize = s.unicode_len();
    let fill: usize = if count < width { width - count } else { 0 };
    let mut out = String::new();
    for i in 0..fill
        invariant
            out@ == Seq::new(i as nat, |k: int| ' '),
    {
        out.push(' ');
        assert(Seq::new((i + 1) as nat, |k: int| ' ') =~= Seq::new(i as nat, |k: int| ' ').push(' '));
    }
    out.append(s);
    out
}

} // verus!
