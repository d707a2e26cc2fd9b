//! Character-level helpers on strings.

use vstd::prelude::*;

verus! {

/// Relies on `String::push`: appends one character at the end.
#[verifier::external_body]
pub(crate) fn push_char(s: &mut String, c: char)
    ensures
        final(s)@ == old(s)@.push(c),
{
    s.push(c)
}

/// The characters of `s`, in order.
pub fn chars_of(s: &str) -> (r: Vec<char>)
    ensures
        r@ == s@,
{
    let mut r: Vec<char> = Vec::new();
    for c in it: s.chars()
        invariant
            r@ == it.seq().subrange(0, it.index() as int),
            it.seq() == s@,
    {
        r.push(c);
    }
    r
}

/// Appends the characters `cs[from..to]` to `s`.
pub fn push_range(s: &mut String, cs: &Vec<char>, from: usize, to: usize)
    requires
        from <= to <= cs@.len(),
    ensures
        final(s)@ == old(s)@ + cs@.subrange(from as int, to as int),
{
    let mut i: usize = from;
    while i < to
        invariant
            from <= i <= to <= cs@.len(),
            s@ == old(s)@ + cs@.subrange(from as int, i as int),
        decreases to - i,
    {
        push_char(s, cs[i]);
        i = i + 1;
        assert(s@ =~= old(s)@ + cs@.subrange(from as int, i as int));
    }
}

/// The string made of the characters `cs[from..to]`.
pub fn string_of(cs: &Vec<char>, from: usize, to: usize) -> (r: String)
    requires
        from <= to <= cs@.len(),
    ensures
        r@ == cs@.subrange(from as int, to as int),
{
    let mut r = String::new();
    push_range(&mut r, cs, from, to);
    assert(r@ =~= cs@.subrange(from as int, to as int));
    r
}

/// The one-character string `c`.
pub fn char_string(c: char) -> (r: String)
    ensures
        r@ == seq![c],
{
    let mut r = String::new();
    push_char(&mut r, c);
    assert(r@ =~= seq![c]);
    r
}

/// `prefix` followed by the characters `cs[from..]`.
pub fn prefixed_string(prefix: &str, cs: &Vec<char>, from: usize) -> (r: String)
    requires
        from <= cs@.len(),
    ensures
        r@ == prefix@ + cs@.subrange(from as int, cs@.len() as int),
{
    let mut r = prefix.to_owned();
    push_range(&mut r, cs, from, cs.len());
    r
}

} // verus!

verus! {

/// Unicode `White_Space` characters, as `char::is_whitespace` classifies them.
pub open spec fn is_ws(c: char) -> bool {
    ('\u{9}' <= c && c <= '\u{d}') || c == ' ' || c == '\u{85}' || c == '\u{a0}'
        || c == '\u{1680}' || ('\u{2000}' <= c && c <= '\u{200a}') || c == '\u{2028}'
        || c == '\u{2029}' || c == '\u{202f}' || c == '\u{205f}' || c == '\u{3000}'
}

/// Whether `c` is whitespace.
pub fn is_ws_char(c: char) -> (r: bool)
    ensures
        r == is_ws(c),
{
    ('\u{9}' <= c && c <= '\u{d}') || c == ' ' || c == '\u{85}' || c == '\u{a0}'
        || c == '\u{1680}' || ('\u{2000}' <= c && c <= '\u{200a}') || c == '\u{2028}'
        || c == '\u{2029}' || c == '\u{202f}' || c == '\u{205f}' || c == '\u{3000}'
}

/// `l` without one trailing carriage return.
pub open spec fn strip_cr(l: Seq<char>) -> Seq<char> {
    if l.len() > 0 && l.last() == '\r' {
        l.drop_last()
    } else {
        l
    }
}

/// Where the line that holds position `i` of `s` begins: just after the
/// last newline before `i`.
pub open spec fn line_start(s: Seq<char>, i: int) -> int
    decreases i,
{
    if i <= 0 {
        0
    } else if s[i - 1] == '\n' {
        i
    } else {
        line_start(s, i - 1)
    }
}

/// The non-empty lines of `s` ended by a newline among its first `i`
/// characters, each without its line ending (`\n` or `\r\n`).
pub open spec fn ended_lines(s: Seq<char>, i: int) -> Seq<Seq<char>>
    decreases i,
{
    if i <= 0 {
        Seq::empty()
    } else if s[i - 1] == '\n' {
        let l = strip_cr(s.subrange(line_start(s, i - 1), i - 1));
        if l.len() > 0 {
            ended_lines(s, i - 1).push(l)
        } else {
            ended_lines(s, i - 1)
        }
    } else {
        ended_lines(s, i - 1)
    }
}

/// The non-empty lines of `s`, in order: the lines that a newline ends, and
/// the text after the last newline if there is any.
pub open spec fn text_lines(s: Seq<char>) -> Seq<Seq<char>> {
    let st = line_start(s, s.len() as int);
    if st < s.len() {
        ended_lines(s, s.len() as int).push(s.subrange(st, s.len() as int))
    } else {
        ended_lines(s, s.len() as int)
    }
}

/// Where the word that holds position `i` of `s` begins: just after the
/// last whitespace character before `i`.
pub open spec fn word_start(s: Seq<char>, i: int) -> int
    decreases i,
{
    if i <= 0 {
        0
    } else if is_ws(s[i - 1]) {
        i
    } else {
        word_start(s, i - 1)
    }
}

/// The words of `s` that whitespace ends among its first `i` characters.
pub open spec fn ended_words(s: Seq<char>, i: int) -> Seq<Seq<char>>
    decreases i,
{
    if i <= 0 {
        Seq::empty()
    } else if is_ws(s[i - 1]) {
        let w = s.subrange(word_start(s, i - 1), i - 1);
        if w.len() > 0 {
            ended_words(s, i - 1).push(w)
        } else {
            ended_words(s, i - 1)
        }
    } else {
        ended_words(s, i - 1)
    }
}

/// The maximal runs of non-whitespace characters of `s`, in order.
pub open spec fn words(s: Seq<char>) -> Seq<Seq<char>> {
    let st = word_start(s, s.len() as int);
    if st < s.len() {
        ended_words(s, s.len() as int).push(s.subrange(st, s.len() as int))
    } else {
        ended_words(s, s.len() as int)
    }
}

/// The character sequences of the strings `v`.
pub open spec fn strings_view(v: Seq<String>) -> Seq<Seq<char>> {
    v.map_values(|x: String| x@)
}

/// The non-empty lines of `s`.
pub fn lines_of(s: &str) -> (r: Vec<String>)
    ensures
        strings_view(r@) == text_lines(s@),
{
    let cs = chars_of(s);
    let n = cs.len();
    let mut r: Vec<String> = Vec::new();
    let mut start: usize = 0;
    let mut i: usize = 0;
    while i < n
        invariant
            n == cs@.len(),
            cs@ == s@,
            i <= n,
            start == line_start(cs@, i as int),
            start <= i,
            strings_view(r@) == ended_lines(cs@, i as int),
        decreases n - i,
    {
        if cs[i] == '\n' {
            let mut end = i;
            if end > start && cs[end - 1] == '\r' {
                end = end - 1;
            }
            if end > start {
                let l = string_of(&cs, start, end);
                proof {
                    assert(l@ == strip_cr(cs@.subrange(start as int, i as int)));
                }
                r.push(l);
                assert(strings_view(r@) =~= ended_lines(cs@, i + 1));
            } else {
                assert(strip_cr(cs@.subrange(start as int, i as int)).len() == 0);
            }
            start = i + 1;
        }
        i = i + 1;
    }
    if start < n {
        let l = string_of(&cs, start, n);
        r.push(l);
        assert(strings_view(r@) =~= text_lines(s@));
    }
    r
}

/// The whitespace-separated words of `s`.
pub fn words_of(s: &str) -> (r: Vec<String>)
    ensures
        strings_view(r@) == words(s@),
{
    let cs = chars_of(s);
    let n = cs.len();
    let mut r: Vec<String> = Vec::new();
    let mut start: usize = 0;
    let mut i: usize = 0;
    while i < n
        invariant
            n == cs@.len(),
            cs@ == s@,
            i <= n,
            start == word_start(cs@, i as int),
            start <= i,
            strings_view(r@) == ended_words(cs@, i as int),
        decreases n - i,
    {
        if is_ws_char(cs[i]) {
            if i > start {
                let w = string_of(&cs, start, i);
                r.push(w);
                assert(strings_view(r@) =~= ended_words(cs@, i + 1));
            }
            start = i + 1;
        }
        i = i + 1;
    }
    if start < n {
        let w = string_of(&cs, start, n);
        r.push(w);
        assert(strings_view(r@) =~= words(s@));
    }
    r
}

} // verus!

verus! {

/// `s` without leading whitespace.
pub open spec fn trim_start(s: Seq<char>) -> Seq<char>
    decreases s.len(),
{
    if s.len() > 0 && is_ws(s[0]) {
        trim_start(s.drop_first())
    } else {
        s
    }
}

/// `s` without trailing whitespace.
pub open spec fn trim_end(s: Seq<char>) -> Seq<char>
    decreases s.len(),
{
    if s.len() > 0 && is_ws(s.last()) {
        trim_end(s.drop_last())
    } else {
        s
    }
}

/// `s` without leading and trailing whitespace.
pub open spec fn trim(s: Seq<char>) -> Seq<char> {
    trim_end(trim_start(s))
}

/// `s` without leading and trailing whitespace.
pub fn trimmed(s: &str) -> (r: String)
    ensures
        r@ == trim(s@),
{
    let cs = chars_of(s);
    let n = cs.len();
    let mut a: usize = 0;
    assert(cs@.subrange(0, n as int) =~= cs@);
    while a < n && is_ws_char(cs[a])
        invariant
            n == cs@.len(),
            a <= n,
            trim_start(cs@) == trim_start(cs@.subrange(a as int, n as int)),
        decreases n - a,
    {
        assert(cs@.subrange(a as int, n as int).drop_first() =~= cs@.subrange(a + 1, n as int));
        a = a + 1;
    }
    assert(trim_start(cs@.subrange(a as int, n as int)) == cs@.subrange(a as int, n as int));
    let mut b: usize = n;
    while b > a && is_ws_char(cs[b - 1])
        invariant
            n == cs@.len(),
            a <= b <= n,
            trim(cs@) == trim_end(cs@.subrange(a as int, b as int)),
        decreases b,
    {
        assert(cs@.subrange(a as int, b as int).drop_last() =~= cs@.subrange(a as int, b - 1));
        b = b - 1;
    }
    string_of(&cs, a, b)
}

/// Whether `c` is an ASCII decimal digit.
pub open spec fn is_digit(c: char) -> bool {
    '0' <= c && c <= '9'
}

/// Whether every character of `d` is a decimal digit.
pub open spec fn all_digits(d: Seq<char>) -> bool {
    forall|i: int| 0 <= i < d.len() ==> is_digit(#[trigger] d[i])
}

/// The number that the decimal digits `d` write.
pub open spec fn digits_value(d: Seq<char>) -> nat
    decreases d.len(),
{
    if d.len() == 0 {
        0
    } else {
        digits_value(d.drop_last()) * 10 + ((d.last() as u32) - ('0' as u32)) as nat
    }
}

/// What `str::parse::<u32>` yields: an optional `+`, then at least one decimal
/// digit, with a value that fits.
pub open spec fn parse_u32(t: Seq<char>) -> Option<u32> {
    let d = if t.len() > 0 && t[0] == '+' {
        t.drop_first()
    } else {
        t
    };
    if d.len() > 0 && all_digits(d) && digits_value(d) <= u32::MAX {
        Some(digits_value(d) as u32)
    } else {
        None
    }
}

proof fn lemma_digits_value_grows(d: Seq<char>, i: int, j: int)
    requires
        0 <= i <= j <= d.len(),
        all_digits(d),
    ensures
        digits_value(d.subrange(0, i)) <= digits_value(d.subrange(0, j)),
    decreases j - i,
{
    if i < j {
        lemma_digits_value_grows(d, i, j - 1);
        assert(d.subrange(0, j).drop_last() =~= d.subrange(0, j - 1));
        assert(is_digit(d[j - 1]));
    }
}

/// Reads `t` as an unsigned 32-bit decimal number.
pub fn parse_u32_of(t: &str) -> (r: Option<u32>)
    ensures
        r == parse_u32(t@),
{
    let cs = chars_of(t);
    let n = cs.len();
    let mut i: usize = 0;
    if n > 0 && cs[0] == '+' {
        i = 1;
    }
    let first = i;
    let ghost d = cs@.subrange(first as int, n as int);
    assert(d =~= if t@.len() > 0 && t@[0] == '+' { t@.drop_first() } else { t@ });
    if first == n {
        return None;
    }
    let mut acc: u64 = 0;
    while i < n
        invariant
            n == cs@.len(),
            first <= i <= n,
            d == cs@.subrange(first as int, n as int),
            d == (if t@.len() > 0 && t@[0] == '+' { t@.drop_first() } else { t@ }),
            d.len() > 0,
            all_digits(d.subrange(0, i - first)),
            acc == digits_value(d.subrange(0, i - first)),
            acc <= u32::MAX,
        decreases n - i,
    {
        let c = cs[i];
        if !('0' <= c && c <= '9') {
            assert(d[i - first] == c);
            assert(!is_digit(d[i - first]));
            assert(!all_digits(d));
            return None;
        }
        assert(d.subrange(0, i + 1 - first).drop_last() =~= d.subrange(0, i - first));
        acc = acc * 10 + ((c as u32) - ('0' as u32)) as u64;
        i = i + 1;
        assert(all_digits(d.subrange(0, i - first)));
        if acc > u32::MAX as u64 {
            proof {
                if all_digits(d) {
                    lemma_digits_value_grows(d, i - first, d.len() as int);
                    assert(d.subrange(0, d.len() as int) =~= d);
                }
            }
            return None;
        }
    }
    assert(d.subrange(0, n - first) =~= d);
    Some(acc as u32)
}

} // verus!
