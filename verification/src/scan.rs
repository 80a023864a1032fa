//! Text taken apart: white space, lines, fields, prefixes and numbers.
use crate::text::matches_at;
use vstd::prelude::*;
use vstd::slice::slice_subrange;

verus! {

/// Whether a character is white space in the sense of Unicode.
pub open spec fn is_space(c: char) -> bool {
    ||| '\u{9}' <= c && c <= '\u{d}'
    ||| c == '\u{20}'
    ||| c == '\u{85}'
    ||| c == '\u{a0}'
    ||| c == '\u{1680}'
    ||| '\u{2000}' <= c && c <= '\u{200a}'
    ||| c == '\u{2028}'
    ||| c == '\u{2029}'
    ||| c == '\u{202f}'
    ||| c == '\u{205f}'
    ||| c == '\u{3000}'
}

/// Whether a character is white space in the sense of Unicode.
pub fn is_white_space(c: char) -> (r: bool)
    ensures
        r == is_space(c),
{
    ('\u{9}' <= c && c <= '\u{d}') || c == '\u{20}' || c == '\u{85}' || c == '\u{a0}' || c
        == '\u{1680}' || ('\u{2000}' <= c && c <= '\u{200a}') || c == '\u{2028}' || c
        == '\u{2029}' || c == '\u{202f}' || c == '\u{205f}' || c == '\u{3000}'
}

/// A text without the white space at its start.
pub open spec fn trimmed_start(s: Seq<char>) -> Seq<char>
    decreases s.len(),
{
    if s.len() > 0 && is_space(s[0]) {
        trimmed_start(s.skip(1))
    } else {
        s
    }
}

/// A text without the white space at its end.
pub open spec fn trimmed_end(s: Seq<char>) -> Seq<char>
    decreases s.len(),
{
    if s.len() > 0 && is_space(s.last()) {
        trimmed_end(s.drop_last())
    } else {
        s
    }
}

/// A text without the white space at its start and its end.
pub open spec fn trimmed(s: Seq<char>) -> Seq<char> {
    trimmed_end(trimmed_start(s))
}

/// The characters without the white space at their start.
pub fn trim_start(s: &[char]) -> (r: &[char])
    ensures
        r@ == trimmed_start(s@),
{
    let mut i: usize = 0;
    assert(s@.skip(0) =~= s@);
    while i < s.len() && is_white_space(s[i])
        invariant
            i <= s.len(),
            trimmed_start(s@.skip(i as int)) == trimmed_start(s@),
        decreases s.len() - i,
    {
        assert(s@.skip(i as int).skip(1) =~= s@.skip(i as int + 1));
        i = i + 1;
    }
    assert(s@.subrange(i as int, s@.len() as int) =~= s@.skip(i as int));
    slice_subrange(s, i, s.len())
}

/// The characters without the white space at their end.
pub fn trim_end(s: &[char]) -> (r: &[char])
    ensures
        r@ == trimmed_end(s@),
{
    let mut i: usize = s.len();
    assert(s@.take(s@.len() as int) =~= s@);
    while i > 0 && is_white_space(s[i - 1])
        invariant
            i <= s.len(),
            trimmed_end(s@.take(i as int)) == trimmed_end(s@),
        decreases i,
    {
        assert(s@.take(i as int).drop_last() =~= s@.take(i as int - 1));
        i = i - 1;
    }
    assert(s@.subrange(0, i as int) =~= s@.take(i as int));
    slice_subrange(s, 0, i)
}

/// The characters without the white space at both ends.
pub fn trim(s: &[char]) -> (r: &[char])
    ensures
        r@ == trimmed(s@),
{
    trim_end(trim_start(s))
}

/// The position of the first `c` from `i` on, or the end.
pub open spec fn find_from(s: Seq<char>, c: char, i: int) -> int
    decreases s.len() - i,
{
    if 0 <= i < s.len() && s[i] != c {
        find_from(s, c, i + 1)
    } else {
        i
    }
}

pub proof fn lemma_find_from(s: Seq<char>, c: char, i: int)
    requires
        0 <= i <= s.len(),
    ensures
        i <= find_from(s, c, i) <= s.len(),
        find_from(s, c, i) < s.len() ==> s[find_from(s, c, i)] == c,
        forall|k: int| i <= k < find_from(s, c, i) ==> s[k] != c,
    decreases s.len() - i,
{
    if i < s.len() && s[i] != c {
        lemma_find_from(s, c, i + 1);
    }
}

/// The position of the first `c` from `start` on, or the end.
pub fn find_char(s: &[char], c: char, start: usize) -> (r: usize)
    requires
        start <= s@.len(),
    ensures
        r == find_from(s@, c, start as int),
        start <= r <= s@.len(),
        r < s@.len() ==> s@[r as int] == c,
{
    let mut i: usize = start;
    while i < s.len() && s[i] != c
        invariant
            start <= i <= s.len(),
            find_from(s@, c, i as int) == find_from(s@, c, start as int),
        decreases s.len() - i,
    {
        i = i + 1;
    }
    i
}

/// A line without the carriage return at its end.
pub open spec fn without_cr(s: Seq<char>) -> Seq<char> {
    if s.len() > 0 && s.last() == '\r' {
        s.drop_last()
    } else {
        s
    }
}

/// The lines of a text. A line ends with a line feed, or a carriage return and
/// a line feed; the last one may end with the text.
pub open spec fn lines_of(s: Seq<char>) -> Seq<Seq<char>>
    decreases s.len(),
    via lines_of_shrinks
{
    if s.len() == 0 {
        Seq::empty()
    } else {
        let n = find_from(s, '\n', 0);
        if n == s.len() {
            seq![s]
        } else {
            seq![without_cr(s.take(n))] + lines_of(s.skip(n + 1))
        }
    }
}

#[via_fn]
proof fn lines_of_shrinks(s: Seq<char>) {
    lemma_find_from(s, '\n', 0);
}

/// The fields of a text between separators.
pub open spec fn fields_of(s: Seq<char>, sep: char) -> Seq<Seq<char>>
    decreases s.len(),
    via fields_of_shrinks
{
    let n = find_from(s, sep, 0);
    if n == s.len() {
        seq![s]
    } else {
        seq![s.take(n)] + fields_of(s.skip(n + 1), sep)
    }
}

#[via_fn]
proof fn fields_of_shrinks(s: Seq<char>, sep: char) {
    lemma_find_from(s, sep, 0);
}

/// The contents of a list of texts.
pub open spec fn text_views(v: Seq<Vec<char>>) -> Seq<Seq<char>> {
    Seq::new(v.len(), |i: int| v[i]@)
}

/// The characters of `s` from `from` up to `to`.
pub fn copy_chars(s: &[char], from: usize, to: usize) -> (r: Vec<char>)
    requires
        from <= to <= s@.len(),
    ensures
        r@ == s@.subrange(from as int, to as int),
{
    vstd::slice::slice_to_vec(slice_subrange(s, from, to))
}

/// The lines of a text.
pub fn lines(s: &[char]) -> (r: Vec<Vec<char>>)
    ensures
        text_views(r@) == lines_of(s@),
{
    let mut out: Vec<Vec<char>> = Vec::new();
    let mut start: usize = 0;
    proof {
        assert(s@.skip(0) =~= s@);
        assert(text_views(out@) + lines_of(s@) =~= lines_of(s@));
    }
    while start < s.len()
        invariant
            start <= s.len(),
            text_views(out@) + lines_of(s@.skip(start as int)) == lines_of(s@),
        decreases s.len() - start,
    {
        let ghost rest = s@.skip(start as int);
        let ghost before = text_views(out@);
        let end: usize = find_char(s, '\n', start);
        proof {
            lemma_find_shift(s@, '\n', start as int, start as int);
            lemma_find_from(rest, '\n', 0);
        }
        let stop: usize = if end < s.len() && end > start && s[end - 1] == '\r' {
            end - 1
        } else {
            end
        };
        let line = copy_chars(s, start, stop);
        let ghost l = line@;
        out.push(line);
        proof {
            assert(text_views(out@) =~= before.push(l));
            let n = end - start;
            assert(n == find_from(rest, '\n', 0));
            if end == s.len() {
                assert(l =~= rest);
                assert(s@.skip(end as int) =~= Seq::<char>::empty());
                assert(lines_of(s@.skip(end as int)) =~= Seq::<Seq<char>>::empty());
                assert(before + seq![l] =~= before.push(l) + lines_of(s@.skip(end as int)));
            } else {
                assert(l =~= without_cr(rest.take(n)));
                let tail = lines_of(s@.skip(end as int + 1));
                assert(rest.skip(n + 1) =~= s@.skip(end as int + 1));
                assert(before + (seq![l] + tail) =~= before.push(l) + tail);
            }
        }
        start = if end < s.len() {
            end + 1
        } else {
            end
        };
    }
    proof {
        assert(s@.skip(start as int) =~= Seq::<char>::empty());
        assert(lines_of(s@.skip(start as int)) =~= Seq::<Seq<char>>::empty());
        assert(text_views(out@) + lines_of(s@.skip(start as int)) =~= text_views(out@));
    }
    out
}

/// Searching from a position on is searching in the rest.
proof fn lemma_find_shift(s: Seq<char>, c: char, from: int, i: int)
    requires
        0 <= from <= i <= s.len(),
    ensures
        find_from(s.skip(from), c, i - from) == find_from(s, c, i) - from,
    decreases s.len() - i,
{
    if i < s.len() {
        assert(s.skip(from)[i - from] == s[i]);
        if s[i] != c {
            lemma_find_shift(s, c, from, i + 1);
        }
    }
}

/// The fields of a text between separators.
pub fn fields(s: &[char], sep: char) -> (r: Vec<Vec<char>>)
    ensures
        text_views(r@) == fields_of(s@, sep),
{
    let mut out: Vec<Vec<char>> = Vec::new();
    let mut start: usize = 0;
    proof {
        assert(s@.skip(0) =~= s@);
        assert(text_views(out@) + fields_of(s@, sep) =~= fields_of(s@, sep));
    }
    loop
        invariant
            start <= s.len(),
            text_views(out@) + fields_of(s@.skip(start as int), sep) == fields_of(s@, sep),
        decreases s.len() - start,
    {
        let ghost rest = s@.skip(start as int);
        let ghost before = text_views(out@);
        let end: usize = find_char(s, sep, start);
        proof {
            lemma_find_shift(s@, sep, start as int, start as int);
        }
        let field = copy_chars(s, start, end);
        let ghost f = field@;
        out.push(field);
        proof {
            assert(text_views(out@) =~= before.push(f));
            let n = end - start;
            assert(n == find_from(rest, sep, 0));
            if end == s.len() {
                assert(f =~= rest);
                assert(before + seq![f] =~= before.push(f));
            } else {
                assert(f =~= rest.take(n));
                let tail = fields_of(s@.skip(end as int + 1), sep);
                assert(rest.skip(n + 1) =~= s@.skip(end as int + 1));
                assert(before + (seq![f] + tail) =~= before.push(f) + tail);
            }
        }
        if end == s.len() {
            return out;
        }
        start = end + 1;
    }
}

/// Whether `s` starts with `prefix`.
pub open spec fn has_prefix(s: Seq<char>, prefix: Seq<char>) -> bool {
    prefix.len() <= s.len() && s.take(prefix.len() as int) == prefix
}

/// Whether `s` starts with `prefix`.
pub fn starts_with(s: &[char], prefix: &[char]) -> (r: bool)
    ensures
        r == has_prefix(s@, prefix@),
{
    let r = matches_at(s, prefix, 0);
    proof {
        if prefix@.len() <= s@.len() {
            assert(s@.subrange(0, prefix@.len() as int) =~= s@.take(prefix@.len() as int));
        }
    }
    r
}

/// What follows `prefix` in `s`, if `s` starts with it.
pub open spec fn after_prefix(s: Seq<char>, prefix: Seq<char>) -> Option<Seq<char>> {
    if has_prefix(s, prefix) {
        Some(s.skip(prefix.len() as int))
    } else {
        None
    }
}

/// What follows `prefix` in `s`, if `s` starts with it.
pub fn strip_prefix<'a>(s: &'a [char], prefix: &[char]) -> (r: Option<&'a [char]>)
    ensures
        match r {
            Some(rest) => after_prefix(s@, prefix@) == Some(rest@),
            None => after_prefix(s@, prefix@) is None,
        },
{
    if starts_with(s, prefix) {
        assert(s@.subrange(prefix@.len() as int, s@.len() as int) =~= s@.skip(
            prefix@.len() as int,
        ));
        Some(slice_subrange(s, prefix.len(), s.len()))
    } else {
        None
    }
}

/// Whether a character is a decimal digit.
pub open spec fn is_digit(c: char) -> bool {
    '0' <= c && c <= '9'
}

/// The number that decimal digits stand for.
pub open spec fn digits_value(s: Seq<char>) -> nat
    decreases s.len(),
{
    if s.len() == 0 {
        0
    } else {
        digits_value(s.drop_last()) * 10 + (s.last() as u32 - 48) as nat
    }
}

/// The digits of a number without its plus sign.
pub open spec fn unsigned_digits(s: Seq<char>) -> Seq<char> {
    if s.len() > 0 && s[0] == '+' {
        s.skip(1)
    } else {
        s
    }
}

/// The number that a text stands for: an optional plus sign and decimal
/// digits, not greater than `max`.
pub open spec fn number_of(s: Seq<char>, max: nat) -> Option<nat> {
    let d = unsigned_digits(s);
    if d.len() > 0 && (forall|i: int| 0 <= i < d.len() ==> is_digit(#[trigger] d[i]))
        && digits_value(d) <= max {
        Some(digits_value(d))
    } else {
        None
    }
}

proof fn lemma_digits_grow(s: Seq<char>, i: int)
    requires
        0 <= i <= s.len(),
    ensures
        digits_value(s.take(i)) <= digits_value(s),
    decreases s.len() - i,
{
    if i < s.len() {
        lemma_digits_grow(s, i + 1);
        assert(s.take(i + 1).drop_last() =~= s.take(i));
        assert(digits_value(s.take(i)) <= digits_value(s.take(i)) * 10);
    } else {
        assert(s.take(i) =~= s);
    }
}

/// Reads a number that is not greater than `max`.
pub fn parse_number(s: &[char], max: u64) -> (r: Option<u64>)
    ensures
        match r {
            Some(n) => number_of(s@, max as nat) == Some(n as nat),
            None => number_of(s@, max as nat) is None,
        },
{
    let d = if s.len() > 0 && s[0] == '+' {
        assert(s@.subrange(1, s@.len() as int) =~= s@.skip(1));
        slice_subrange(s, 1, s.len())
    } else {
        s
    };
    assert(d@ == unsigned_digits(s@));
    if d.len() == 0 {
        return None;
    }
    let mut value: u64 = 0;
    let mut i: usize = 0;
    while i < d.len()
        invariant
            i <= d.len(),
            d@ == unsigned_digits(s@),
            d.len() > 0,
            value <= max,
            value as nat == digits_value(d@.take(i as int)),
            forall|k: int| 0 <= k < i ==> is_digit(#[trigger] d@[k]),
        decreases d.len() - i,
    {
        let c: char = d[i];
        if !('0' <= c && c <= '9') {
            assert(!is_digit(d@[i as int]));
            return None;
        }
        let next: u128 = value as u128 * 10 + (c as u32 - 48) as u128;
        proof {
            assert(d@.take(i as int + 1).drop_last() =~= d@.take(i as int));
            assert(next == digits_value(d@.take(i as int + 1)));
        }
        if next > max as u128 {
            proof {
                lemma_digits_grow(d@, i as int + 1);
            }
            return None;
        }
        value = next as u64;
        i = i + 1;
    }
    assert(d@.take(d@.len() as int) =~= d@);
    Some(value)
}

/// Of the characters of ASCII, the blank and the five controls from the
/// tabulator to the carriage return are white space. Of the others, those are
/// that Unicode says.
pub proof fn law_white_space(c: char)
    ensures
        (c as u32) < 0x80 ==> (is_space(c) <==> c as u32 == 32 || 9 <= c as u32 <= 13),
        c as u32 >= 0x80 ==> (is_space(c) <==> c as u32 == 0x85 || c as u32 == 0xA0 || c as u32
            == 0x1680 || 0x2000 <= c as u32 <= 0x200A || c as u32 == 0x2028 || c as u32 == 0x2029
            || c as u32 == 0x202F || c as u32 == 0x205F || c as u32 == 0x3000),
{
}

/// White space around a text does not matter.
pub proof fn law_trimming(s: Seq<char>, c: char)
    requires
        is_space(c),
    ensures
        trimmed(seq![c] + s) == trimmed(s),
        trimmed(s.push(c)) == trimmed(s),
{
    assert((seq![c] + s).skip(1) =~= s);
    lemma_trim_end_of_push(s, c);
}

proof fn lemma_trim_end_of_push(s: Seq<char>, c: char)
    requires
        is_space(c),
    ensures
        trimmed(s.push(c)) == trimmed(s),
    decreases s.len(),
{
    if s.len() == 0 {
        assert(s.push(c).skip(1) =~= s);
    } else if is_space(s[0]) {
        assert(s.push(c).skip(1) =~= s.skip(1).push(c));
        lemma_trim_end_of_push(s.skip(1), c);
    } else {
        assert(s.push(c)[0] == s[0]);
        assert(s.push(c).drop_last() =~= s);
    }
}

/// A text with no white space at its start and its end is kept whole.
pub proof fn lemma_nothing_to_trim(s: Seq<char>)
    requires
        s.len() == 0 || !is_space(s[0]) && !is_space(s.last()),
    ensures
        trimmed(s) == s,
        trimmed_start(s) == s,
        trimmed_end(s) == s,
{
}

/// Trimming keeps the text between the first and the last character that is no
/// white space, and nothing else.
pub proof fn law_trimmed_is_the_middle(s: Seq<char>)
    ensures
        exists|i: int, j: int|
            0 <= i <= j <= s.len() && trimmed(s) == #[trigger] s.subrange(i, j) && (forall|k: int|
                0 <= k < i || j <= k < s.len() ==> is_space(#[trigger] s[k])) && (i < j
                ==> !is_space(s[i]) && !is_space(s[j - 1])),
{
    let i = lemma_trim_start_cuts(s);
    let t = s.skip(i);
    let n = lemma_trim_end_cuts(t);
    let j = i + n;
    assert(t.take(n) =~= s.subrange(i, j));
    assert forall|k: int| 0 <= k < i || j <= k < s.len() implies is_space(#[trigger] s[k]) by {
        if j <= k {
            assert(t[k - i] == s[k]);
        }
    }
    if i < j {
        assert(t[0] == s[i]);
        assert(t[n - 1] == s[j - 1]);
    }
    assert(trimmed(s) == s.subrange(i, j));
}

proof fn lemma_trim_start_cuts(s: Seq<char>) -> (i: int)
    ensures
        0 <= i <= s.len(),
        trimmed_start(s) == s.skip(i),
        forall|k: int| 0 <= k < i ==> is_space(#[trigger] s[k]),
        i < s.len() ==> !is_space(s[i]),
    decreases s.len(),
{
    if s.len() > 0 && is_space(s[0]) {
        let i = lemma_trim_start_cuts(s.skip(1));
        assert(s.skip(1).skip(i) =~= s.skip(i + 1));
        assert forall|k: int| 0 <= k < i + 1 implies is_space(#[trigger] s[k]) by {
            if k > 0 {
                assert(s.skip(1)[k - 1] == s[k]);
            }
        }
        if i + 1 < s.len() {
            assert(s.skip(1)[i] == s[i + 1]);
        }
        i + 1
    } else {
        assert(s.skip(0) =~= s);
        0
    }
}

proof fn lemma_trim_end_cuts(s: Seq<char>) -> (n: int)
    ensures
        0 <= n <= s.len(),
        trimmed_end(s) == s.take(n),
        forall|k: int| n <= k < s.len() ==> is_space(#[trigger] s[k]),
        n > 0 ==> !is_space(s[n - 1]),
    decreases s.len(),
{
    if s.len() > 0 && is_space(s.last()) {
        let n = lemma_trim_end_cuts(s.drop_last());
        assert(s.drop_last().take(n) =~= s.take(n));
        assert forall|k: int| n <= k < s.len() implies is_space(#[trigger] s[k]) by {
            if k < s.len() - 1 {
                assert(s.drop_last()[k] == s[k]);
            }
        }
        n
    } else {
        assert(s.take(s.len() as int) =~= s);
        s.len() as int
    }
}

/// The text before the first line feed is the first line, without a carriage
/// return at its end, and the lines of the rest follow. What no line feed ends
/// is a line of its own, unless it is empty.
pub proof fn law_first_line(line: Seq<char>, rest: Seq<char>)
    requires
        forall|k: int| 0 <= k < line.len() ==> line[k] != '\n',
    ensures
        line.len() == 0 || line.last() != '\r' ==> lines_of(line + seq!['\n'] + rest) == seq![line]
            + lines_of(rest),
        lines_of(line + seq!['\r', '\n'] + rest) == seq![line] + lines_of(rest),
        line.len() > 0 ==> lines_of(line) == seq![line],
        lines_of(Seq::empty()).len() == 0,
{
    let a = line + seq!['\n'] + rest;
    lemma_find_from(a, '\n', 0);
    assert(a[line.len() as int] == '\n');
    assert forall|k: int| 0 <= k < line.len() implies a[k] != '\n' by {
        assert(a[k] == line[k]);
    }
    let n = find_from(a, '\n', 0);
    if n > line.len() {
        assert(a[line.len() as int] != '\n');
    }
    assert(n == line.len());
    assert(a.take(n) =~= line);
    assert(a.skip(n + 1) =~= rest);
    let b = line + seq!['\r', '\n'] + rest;
    lemma_find_from(b, '\n', 0);
    let m = find_from(b, '\n', 0);
    assert(b[line.len() as int] == '\r');
    assert(b[(line.len() + 1) as int] == '\n');
    assert forall|k: int| 0 <= k < line.len() implies b[k] != '\n' by {
        assert(b[k] == line[k]);
    }
    if m > line.len() + 1 {
        assert(b[(line.len() + 1) as int] != '\n');
    }
    assert(m == line.len() + 1);
    assert(b.take(m) =~= line.push('\r'));
    assert(without_cr(line.push('\r')) =~= line);
    assert(b.skip(m + 1) =~= rest);
    lemma_find_from(line, '\n', 0);
}

/// The text before the first separator is the first field, and the fields of
/// the rest follow. A text without a separator is one field.
pub proof fn law_first_field(field: Seq<char>, rest: Seq<char>, sep: char)
    requires
        forall|k: int| 0 <= k < field.len() ==> field[k] != sep,
    ensures
        fields_of(field + seq![sep] + rest, sep) == seq![field] + fields_of(rest, sep),
        fields_of(field, sep) == seq![field],
{
    let a = field + seq![sep] + rest;
    lemma_find_from(a, sep, 0);
    let n = find_from(a, sep, 0);
    assert(a[field.len() as int] == sep);
    assert forall|k: int| 0 <= k < field.len() implies a[k] != sep by {
        assert(a[k] == field[k]);
    }
    if n > field.len() {
        assert(a[field.len() as int] != sep);
    }
    assert(n == field.len());
    assert(a.take(n) =~= field);
    assert(a.skip(n + 1) =~= rest);
    lemma_find_from(field, sep, 0);
}

/// What follows a prefix is what it was put in front of; a text without the
/// prefix has nothing that follows it.
pub proof fn law_prefixes(s: Seq<char>, prefix: Seq<char>)
    ensures
        after_prefix(prefix + s, prefix) == Some(s),
        has_prefix(prefix + s, prefix),
        after_prefix(s, prefix) is Some <==> has_prefix(s, prefix),
        after_prefix(s, prefix) matches Some(rest) ==> s == prefix + rest,
{
    assert((prefix + s).take(prefix.len() as int) =~= prefix);
    assert((prefix + s).skip(prefix.len() as int) =~= s);
    if has_prefix(s, prefix) {
        assert(s =~= s.take(prefix.len() as int) + s.skip(prefix.len() as int));
    }
}

/// Digits are read from the left to the right, ten for one. A plus sign in
/// front does not matter. Anything but digits, no digits, and a number that is
/// too great give none.
pub proof fn law_numbers(s: Seq<char>, c: char, max: nat)
    ensures
        '0' <= c <= '9' && number_of(s, max) is Some && number_of(s, max)->0 * 10 + (c as u32 - 48)
            <= max ==> number_of(s.push(c), max) == Some(
            (number_of(s, max)->0 * 10 + (c as u32 - 48)) as nat,
        ),
        '0' <= c <= '9' && number_of(s, max) is Some && number_of(s, max)->0 * 10 + (c as u32 - 48)
            > max ==> number_of(s.push(c), max) is None,
        '0' <= c <= '9' && c as u32 - 48 <= max ==> number_of(seq![c], max) == Some(
            (c as u32 - 48) as nat,
        ),
        !('0' <= c <= '9') ==> number_of(s.push(c), max) is None,
        s.len() > 0 && s[0] != '+' ==> number_of(seq!['+'] + s, max) == number_of(s, max),
        number_of(Seq::empty(), max) is None,
        number_of(s, max) matches Some(n) ==> n <= max,
{
    let d = unsigned_digits(s);
    let e = unsigned_digits(s.push(c));
    if s.len() > 0 {
        assert(s.push(c)[0] == s[0]);
        assert(s.push(c).skip(1) =~= s.skip(1).push(c));
        assert(e =~= d.push(c));
        assert(e.drop_last() =~= d);
        if is_digit(c) && number_of(s, max) is Some {
            assert forall|i: int| 0 <= i < e.len() implies is_digit(#[trigger] e[i]) by {
                if i < d.len() {
                    assert(e[i] == d[i]);
                }
            }
        }
        if !is_digit(c) {
            assert(!is_digit(e[e.len() - 1]));
        }
    } else {
        assert(s.push(c) =~= seq![c]);
        if !is_digit(c) {
            if c == '+' {
                assert(e =~= Seq::<char>::empty());
            } else {
                assert(!is_digit(e[0]));
            }
        }
    }
    let one = seq![c];
    if is_digit(c) {
        assert(unsigned_digits(one) == one);
        assert(one.drop_last() =~= Seq::<char>::empty());
        assert(digits_value(one.drop_last()) == 0);
        assert(forall|i: int| 0 <= i < one.len() ==> is_digit(#[trigger] one[i]));
    }
    if s.len() > 0 && s[0] != '+' {
        assert((seq!['+'] + s).skip(1) =~= s);
    }
}

} // verus!
