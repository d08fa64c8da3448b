//! Text as sequences of characters: whitespace, trimming, joining, splitting
//! into lines, decimal numerals.

use vstd::prelude::*;

verus! {

/// `String::push` appends one character to the end of the string.
pub assume_specification[ String::push ](s: &mut String, c: char)
    ensures
        final(s)@ == old(s)@.push(c),
;

/// The characters with the Unicode property `White_Space`.
pub open spec fn is_space(c: char) -> bool {
    ||| '\u{9}' <= c <= '\u{d}'
    ||| c == ' '
    ||| c == '\u{85}'
    ||| c == '\u{a0}'
    ||| c == '\u{1680}'
    ||| '\u{2000}' <= c <= '\u{200a}'
    ||| c == '\u{2028}'
    ||| c == '\u{2029}'
    ||| c == '\u{202f}'
    ||| c == '\u{205f}'
    ||| c == '\u{3000}'
}

/// Whether `c` is whitespace.
pub fn is_whitespace(c: char) -> (space: bool)
    ensures
        space == is_space(c),
{
    ('\u{9}' <= c && c <= '\u{d}') || c == ' ' || c == '\u{85}' || c == '\u{a0}' || c
        == '\u{1680}' || ('\u{2000}' <= c && c <= '\u{200a}') || c == '\u{2028}' || c
        == '\u{2029}' || c == '\u{202f}' || c == '\u{205f}' || c == '\u{3000}'
}

/// The first index at or after `i` that holds no whitespace, or the length of `s`.
pub open spec fn skip_spaces(s: Seq<char>, i: int) -> int
    decreases s.len() - i,
{
    if 0 <= i < s.len() && is_space(s[i]) {
        skip_spaces(s, i + 1)
    } else {
        i
    }
}

/// The least index `j >= lo` such that everything in `s` from `j` up to `hi` is whitespace.
pub open spec fn back_spaces(s: Seq<char>, lo: int, hi: int) -> int
    decreases hi - lo,
{
    if lo < hi <= s.len() && is_space(s[hi - 1]) {
        back_spaces(s, lo, hi - 1)
    } else {
        hi
    }
}

/// `s` without its leading and trailing whitespace.
pub open spec fn trimmed(s: Seq<char>) -> Seq<char> {
    let start = skip_spaces(s, 0);
    s.subrange(start, back_spaces(s, start, s.len() as int))
}

/// Whitespace alone lies between `i` and `skip_spaces(s, i)`, and none stands there.
pub proof fn lemma_skip_spaces(s: Seq<char>, i: int)
    requires
        0 <= i <= s.len(),
    ensures
        i <= skip_spaces(s, i) <= s.len(),
        forall|k: int| i <= k < skip_spaces(s, i) ==> is_space(#[trigger] s[k]),
        skip_spaces(s, i) < s.len() ==> !is_space(s[skip_spaces(s, i)]),
    decreases s.len() - i,
{
    if i < s.len() && is_space(s[i]) {
        lemma_skip_spaces(s, i + 1);
    }
}

/// Whitespace alone lies between `back_spaces(s, lo, hi)` and `hi`, and none before it.
pub proof fn lemma_back_spaces(s: Seq<char>, lo: int, hi: int)
    requires
        0 <= lo <= hi <= s.len(),
    ensures
        lo <= back_spaces(s, lo, hi) <= hi,
        forall|k: int| back_spaces(s, lo, hi) <= k < hi ==> is_space(#[trigger] s[k]),
        lo < back_spaces(s, lo, hi) ==> !is_space(s[back_spaces(s, lo, hi) - 1]),
    decreases hi - lo,
{
    if lo < hi && is_space(s[hi - 1]) {
        lemma_back_spaces(s, lo, hi - 1);
    }
}

/// What trimming leaves is framed by whitespace only, and neither begins nor
/// ends with whitespace.
pub proof fn lemma_trimmed(s: Seq<char>)
    ensures
        ({
            let start = skip_spaces(s, 0);
            let end = back_spaces(s, start, s.len() as int);
            &&& 0 <= start <= end <= s.len()
            &&& trimmed(s) == s.subrange(start, end)
            &&& forall|k: int| 0 <= k < start ==> is_space(#[trigger] s[k])
            &&& forall|k: int| end <= k < s.len() ==> is_space(#[trigger] s[k])
            &&& start < end ==> !is_space(s[start]) && !is_space(s[end - 1])
        }),
{
    lemma_skip_spaces(s, 0);
    lemma_back_spaces(s, skip_spaces(s, 0), s.len() as int);
}

/// The characters of a string, in order.
pub fn chars_of(s: &str) -> (chars: Vec<char>)
    ensures
        chars@ == s@,
{
    broadcast use vstd::string::group_string_axioms;

    let mut chars: Vec<char> = Vec::new();
    for c in it: s.chars()
        invariant
            it.seq() == s@,
            chars@ == s@.take(it.index() as int),
    {
        chars.push(c);
    }
    chars
}

/// The string made of `chars[from..to]`.
pub(crate) fn string_of(chars: &Vec<char>, from: usize, to: usize) -> (s: String)
    requires
        from <= to <= chars.len(),
    ensures
        s@ == chars@.subrange(from as int, to as int),
{
    let mut s = String::new();
    let mut i: usize = from;
    while i < to
        invariant
            from <= i <= to <= chars.len(),
            s@ == chars@.subrange(from as int, i as int),
        decreases to - i,
    {
        s.push(chars[i]);
        i = i + 1;
    }
    s
}

/// Whether two texts hold the same characters.
pub fn same_text(a: &str, b: &str) -> (same: bool)
    ensures
        same == (a@ == b@),
{
    a.to_owned() == b.to_owned()
}

/// `s` without the whitespace at its ends.
pub fn trim(s: &str) -> (t: String)
    ensures
        t@ == trimmed(s@),
{
    let chars = chars_of(s);
    let n = chars.len();
    let mut start: usize = 0;
    while start < n && is_whitespace(chars[start])
        invariant
            n == chars.len(),
            start <= n,
            skip_spaces(chars@, 0) == skip_spaces(chars@, start as int),
        decreases n - start,
    {
        start = start + 1;
    }
    let mut end: usize = n;
    while start < end && is_whitespace(chars[end - 1])
        invariant
            n == chars.len(),
            start <= end <= n,
            back_spaces(chars@, start as int, n as int) == back_spaces(
                chars@,
                start as int,
                end as int,
            ),
        decreases end - start,
    {
        end = end - 1;
    }
    string_of(&chars, start, end)
}

/// The parts written one after another with `sep` between neighbours.
pub open spec fn joined(parts: Seq<Seq<char>>, sep: Seq<char>) -> Seq<char>
    decreases parts.len(),
{
    if parts.len() == 0 {
        Seq::empty()
    } else if parts.len() == 1 {
        parts[0]
    } else {
        joined(parts.drop_last(), sep) + sep + parts.last()
    }
}

/// The views of the strings in `parts`.
pub open spec fn texts(parts: Seq<String>) -> Seq<Seq<char>> {
    Seq::new(parts.len(), |i: int| parts[i]@)
}

/// The parts, one to a line.
pub fn join_lines(parts: &Vec<String>) -> (s: String)
    ensures
        s@ == joined(texts(parts@), seq!['\n']),
{
    let mut s = String::new();
    let mut i: usize = 0;
    while i < parts.len()
        invariant
            i <= parts.len(),
            s@ == joined(texts(parts@).take(i as int), seq!['\n']),
        decreases parts.len() - i,
    {
        proof {
            let before = texts(parts@).take(i as int);
            let after = texts(parts@).take(i + 1);
            assert(after.drop_last() == before);
        }
        if i > 0 {
            s.push('\n');
        }
        s.append(parts[i].as_str());
        i = i + 1;
    }
    assert(texts(parts@).take(parts.len() as int) == texts(parts@));
    s
}

/// The position of the last line feed in `s`, or -1 where it has none.
pub open spec fn last_newline(s: Seq<char>) -> int
    decreases s.len(),
{
    if s.len() == 0 {
        -1
    } else if s.last() == '\n' {
        s.len() - 1
    } else {
        last_newline(s.drop_last())
    }
}

/// The pieces of `s` between its line feeds: one more piece than line feeds.
pub open spec fn split_lines(s: Seq<char>) -> Seq<Seq<char>>
    decreases s.len(),
{
    let k = last_newline(s);
    if 0 <= k < s.len() {
        split_lines(s.subrange(0, k)).push(s.subrange(k + 1, s.len() as int))
    } else {
        seq![s]
    }
}

/// `last_newline` finds a line feed, and none comes behind it.
pub proof fn lemma_last_newline(s: Seq<char>)
    ensures
        -1 <= last_newline(s) < s.len(),
        last_newline(s) >= 0 ==> s[last_newline(s)] == '\n',
        forall|k: int| last_newline(s) < k < s.len() ==> #[trigger] s[k] != '\n',
    decreases s.len(),
{
    if s.len() > 0 && s.last() != '\n' {
        let front = s.drop_last();
        lemma_last_newline(front);
        assert forall|k: int| last_newline(s) < k < s.len() implies #[trigger] s[k] != '\n' by {
            if k < front.len() {
                assert(s[k] == front[k]);
            }
        }
    }
}

/// No piece holds a line feed, and the pieces joined by line feeds give `s` back.
pub proof fn lemma_split_lines(s: Seq<char>)
    ensures
        split_lines(s).len() >= 1,
        forall|i: int, k: int|
            0 <= i < split_lines(s).len() && 0 <= k < split_lines(s)[i].len()
                ==> #[trigger] split_lines(s)[i][k] != '\n',
        joined(split_lines(s), seq!['\n']) == s,
    decreases s.len(),
{
    lemma_last_newline(s);
    let k = last_newline(s);
    if 0 <= k < s.len() {
        let head = s.subrange(0, k);
        let tail = s.subrange(k + 1, s.len() as int);
        lemma_split_lines(head);
        assert(split_lines(head).push(tail).drop_last() == split_lines(head));
    }
}

/// Appending a character other than a line feed lengthens the last piece.
pub proof fn lemma_split_lines_push(s: Seq<char>, c: char)
    requires
        c != '\n',
    ensures
        split_lines(s).len() >= 1,
        split_lines(s.push(c)) == split_lines(s).drop_last().push(split_lines(s).last().push(c)),
{
    let t = s.push(c);
    assert(t.drop_last() == s);
    lemma_last_newline(s);
    let k = last_newline(s);
    if 0 <= k < s.len() {
        assert(t.subrange(0, k) == s.subrange(0, k));
        assert(t.subrange(k + 1, t.len() as int) == s.subrange(k + 1, s.len() as int).push(c));
    }
}

/// Appending a line feed opens a new, empty piece.
pub proof fn lemma_split_lines_newline(s: Seq<char>)
    ensures
        split_lines(s.push('\n')) == split_lines(s).push(Seq::empty()),
{
    let t = s.push('\n');
    assert(t.subrange(0, s.len() as int) == s);
    assert(t.subrange(s.len() as int + 1, t.len() as int) == Seq::<char>::empty());
}

/// Appending text without line feeds lengthens the last piece.
pub proof fn lemma_split_lines_append(s: Seq<char>, t: Seq<char>)
    requires
        forall|k: int| 0 <= k < t.len() ==> t[k] != '\n',
    ensures
        split_lines(s).len() >= 1,
        split_lines(s + t) == split_lines(s).drop_last().push(split_lines(s).last() + t),
    decreases t.len(),
{
    lemma_split_lines(s);
    if t.len() > 0 {
        let front = t.drop_last();
        lemma_split_lines_append(s, front);
        lemma_split_lines_push(s + front, t.last());
        assert((s + front).push(t.last()) == s + t);
        assert(split_lines(s + front).last().push(t.last()) == split_lines(s).last() + t);
    }
}

/// Pieces without line feeds are the lines of the text that joins them.
pub proof fn lemma_split_joined(pieces: Seq<Seq<char>>)
    requires
        pieces.len() >= 1,
        forall|i: int, k: int|
            0 <= i < pieces.len() && 0 <= k < pieces[i].len() ==> #[trigger] pieces[i][k] != '\n',
    ensures
        split_lines(joined(pieces, seq!['\n'])) == pieces,
    decreases pieces.len(),
{
    let last = pieces.last();
    if pieces.len() == 1 {
        let nothing = Seq::<char>::empty();
        lemma_split_lines_append(nothing, last);
    } else {
        let front = pieces.drop_last();
        lemma_split_joined(front);
        let head = joined(front, seq!['\n']);
        lemma_split_lines_newline(head);
        assert(head + seq!['\n'] == head.push('\n'));
        lemma_split_lines_append(head.push('\n'), last);
    }
}

/// The views of the lines in `lines`.
pub open spec fn line_views(lines: Seq<Vec<char>>) -> Seq<Seq<char>> {
    Seq::new(lines.len(), |i: int| lines[i]@)
}

/// Splits at each line feed; the line feeds themselves are dropped.
pub fn lines_of(chars: &Vec<char>) -> (lines: Vec<Vec<char>>)
    ensures
        line_views(lines@) == split_lines(chars@),
{
    let mut lines: Vec<Vec<char>> = Vec::new();
    let mut current: Vec<char> = Vec::new();
    let mut i: usize = 0;
    proof {
        assert(chars@.take(0) == Seq::<char>::empty());
    }
    while i < chars.len()
        invariant
            i <= chars.len(),
            line_views(lines@).push(current@) == split_lines(chars@.take(i as int)),
        decreases chars.len() - i,
    {
        let c = chars[i];
        proof {
            assert(chars@.take(i + 1) == chars@.take(i as int).push(c));
            if c == '\n' {
                lemma_split_lines_newline(chars@.take(i as int));
            } else {
                lemma_split_lines_push(chars@.take(i as int), c);
            }
        }
        if c == '\n' {
            lines.push(current);
            current = Vec::new();
        } else {
            current.push(c);
        }
        i = i + 1;
    }
    lines.push(current);
    assert(chars@.take(chars.len() as int) == chars@);
    lines
}

/// The number of lines of a text: the pieces between its line feeds, a last
/// empty piece not counted.
pub open spec fn line_count(s: Seq<char>) -> nat {
    let pieces = split_lines(s);
    if pieces.last().len() == 0 {
        (pieces.len() - 1) as nat
    } else {
        pieces.len()
    }
}

/// The number of lines of `s`.
pub fn count_lines(s: &str) -> (count: usize)
    ensures
        count == line_count(s@),
{
    let chars = chars_of(s);
    let lines = lines_of(&chars);
    proof {
        lemma_split_lines(s@);
    }
    if lines[lines.len() - 1].len() == 0 {
        lines.len() - 1
    } else {
        lines.len()
    }
}

/// The decimal digit for `d`.
pub open spec fn digit(d: int) -> char
    recommends
        0 <= d < 10,
{
    ('0' as int + d) as char
}

/// The decimal numeral of `n`, without leading zeros.
pub open spec fn decimal(n: nat) -> Seq<char>
    decreases n,
{
    if n < 10 {
        seq![digit(n as int)]
    } else {
        decimal(n / 10).push(digit((n % 10) as int))
    }
}

/// `s` with spaces put in front until it is `width` long.
pub open spec fn right_aligned(s: Seq<char>, width: nat) -> Seq<char> {
    if s.len() >= width {
        s
    } else {
        Seq::new((width - s.len()) as nat, |i: int| ' ') + s
    }
}

/// Appends the numeral of `n`.
fn push_decimal(out: &mut String, n: u64)
    ensures
        final(out)@ == old(out)@ + decimal(n as nat),
    decreases n,
{
    if n >= 10 {
        push_decimal(out, n / 10);
    }
    let d: u8 = (n % 10) as u8;
    out.push((d + 48) as char);
}

/// The decimal numeral of `n`.
pub fn decimal_string(n: u64) -> (s: String)
    ensures
        s@ == decimal(n as nat),
{
    let mut s = String::new();
    push_decimal(&mut s, n);
    s
}

/// The numeral of `n`, right-aligned in a field of `width` characters.
pub fn aligned_number(n: u64, width: usize) -> (s: String)
    ensures
        s@ == right_aligned(decimal(n as nat), width as nat),
{
    let numeral = decimal_string(n);
    let len = numeral.as_str().unicode_len();
    let mut s = String::new();
    if len < width {
        let mut i: usize = 0;
        while i < width - len
            invariant
                len < width,
                i <= width - len,
                s@ == Seq::new(i as nat, |k: int| ' '),
            decreases width - len - i,
        {
            s.push(' ');
            i = i + 1;
        }
    }
    s.append(numeral.as_str());
    s
}

/// Whether `needle` stands in `hay` at position `i`.
pub open spec fn occurs_at(hay: Seq<char>, needle: Seq<char>, i: int) -> bool {
    &&& 0 <= i
    &&& i + needle.len() <= hay.len()
    &&& hay.subrange(i, i + needle.len()) == needle
}

/// Whether `needle` stands in `hay` at position `i`.
pub fn found_at(hay: &Vec<char>, needle: &str, i: usize) -> (found: bool)
    ensures
        found == occurs_at(hay@, needle@, i as int),
{
    let len = needle.unicode_len();
    if i > hay.len() || len > hay.len() - i {
        return false;
    }
    let mut k: usize = 0;
    while k < len
        invariant
            len == needle@.len(),
            i + len <= hay.len(),
            k <= len,
            forall|j: int| 0 <= j < k ==> hay@[i + j] == needle@[j],
        decreases len - k,
    {
        if hay[i + k] != needle.get_char(k) {
            return false;
        }
        k = k + 1;
    }
    assert(hay@.subrange(i as int, i + len) == needle@);
    true
}

} // verus!
