//! Character classes and small text operations, stated over `Seq<char>`.
//!
//! Every executable function here has a contract that gives its result as a
//! spec function of the views of its arguments. The few facts about Unicode
//! that the standard library decides are kept behind named spec functions.

use vstd::prelude::*;

verus! {

/// Whether a character outside ASCII is alphabetic or numeric, as the
/// standard library's Unicode tables decide it.
pub uninterp spec fn unicode_alphanumeric(c: char) -> bool;

/// Whether a character outside ASCII has the Unicode `White_Space` property,
/// as the standard library's Unicode tables decide it.
pub uninterp spec fn unicode_whitespace(c: char) -> bool;

/// The lowercase form of a text that holds a character outside ASCII, as the
/// standard library's Unicode tables decide it.
pub uninterp spec fn unicode_lowercase(s: Seq<char>) -> Seq<char>;

pub open spec fn is_ascii_char(c: char) -> bool {
    (c as u32) < 128
}

pub open spec fn is_ascii_text(s: Seq<char>) -> bool {
    forall|i: int| 0 <= i < s.len() ==> is_ascii_char(#[trigger] s[i])
}

pub open spec fn ascii_alnum_char(c: char) -> bool {
    ||| '0' as u32 <= c as u32 <= '9' as u32
    ||| 'a' as u32 <= c as u32 <= 'z' as u32
    ||| 'A' as u32 <= c as u32 <= 'Z' as u32
}

/// Alphabetic or numeric: the ASCII letters and digits, and beyond ASCII what
/// Unicode calls so.
pub open spec fn alnum_char(c: char) -> bool {
    if is_ascii_char(c) {
        ascii_alnum_char(c)
    } else {
        unicode_alphanumeric(c)
    }
}

/// White space: space, tab, line feed, vertical tab, form feed and carriage
/// return, and beyond ASCII what Unicode calls so.
pub open spec fn space_char(c: char) -> bool {
    if is_ascii_char(c) {
        c == ' ' || 9 <= c as u32 <= 13
    } else {
        unicode_whitespace(c)
    }
}

pub open spec fn ascii_lower(c: char) -> char {
    if 'A' as u32 <= c as u32 <= 'Z' as u32 {
        ((c as u32) + 32) as char
    } else {
        c
    }
}

/// The lowercase form of a text. On ASCII text each capital letter becomes
/// its small letter and nothing else changes.
pub open spec fn lowercase_text(s: Seq<char>) -> Seq<char> {
    if is_ascii_text(s) {
        s.map_values(|c: char| ascii_lower(c))
    } else {
        unicode_lowercase(s)
    }
}

/// `char::is_alphanumeric` of the standard library: on ASCII it accepts the
/// letters and digits, elsewhere it follows the Unicode tables.
pub assume_specification[ char::is_alphanumeric ](c: char) -> (r: bool)
    ensures
        r == alnum_char(c),
        !is_ascii_char(c) ==> r == unicode_alphanumeric(c),
;

/// `char::is_whitespace` of the standard library: on ASCII it accepts space
/// and the five control characters from tab to carriage return, elsewhere it
/// follows the Unicode tables.
pub assume_specification[ char::is_whitespace ](c: char) -> (r: bool)
    ensures
        r == space_char(c),
        !is_ascii_char(c) ==> r == unicode_whitespace(c),
;

/// `str::to_lowercase` of the standard library: the result depends on the
/// text alone, and on ASCII text it lowers each capital letter.
pub assume_specification[ str::to_lowercase ](s: &str) -> (r: String)
    ensures
        r@ == lowercase_text(s@),
        !is_ascii_text(s@) ==> r@ == unicode_lowercase(s@),
;

/// `String::push` of the standard library appends one character.
pub assume_specification[ String::push ](s: &mut String, ch: char)
    ensures
        final(s)@ == old(s)@.push(ch),
;

/// The characters of a text, in order.
pub fn chars_of(s: &str) -> (r: Vec<char>)
    ensures
        r@ == s@,
{
    broadcast use vstd::string::group_string_axioms;

    let mut out: Vec<char> = Vec::new();
    for c in it: s.chars()
        invariant
            it.seq() == s@,
            out@ == it.seq().take(it.index()),
    {
        out.push(c);
    }
    out
}

/// The text made of `v[from..to]`.
pub fn text_of_range(v: &Vec<char>, from: usize, to: usize) -> (r: String)
    requires
        from <= to <= v.len(),
    ensures
        r@ == v@.subrange(from as int, to as int),
{
    let mut out = String::new();
    let mut i: usize = from;
    while i < to
        invariant
            from <= i <= to <= v.len(),
            out@ == v@.subrange(from as int, i as int),
        decreases to - i,
    {
        out.push(v[i]);
        i += 1;
    }
    out
}

/// The text made of the characters of `v`.
pub fn text_of(v: &Vec<char>) -> (r: String)
    ensures
        r@ == v@,
{
    text_of_range(v, 0, v.len())
}

/// `s` without the white space at its start.
pub open spec fn trim_start_text(s: Seq<char>) -> Seq<char>
    decreases s.len(),
{
    if s.len() > 0 && space_char(s[0]) {
        trim_start_text(s.skip(1))
    } else {
        s
    }
}

/// `s` without the white space at its end.
pub open spec fn trim_end_text(s: Seq<char>) -> Seq<char>
    decreases s.len(),
{
    if s.len() > 0 && space_char(s.last()) {
        trim_end_text(s.drop_last())
    } else {
        s
    }
}

/// `s` without the white space at either end.
pub open spec fn trimmed_text(s: Seq<char>) -> Seq<char> {
    trim_end_text(trim_start_text(s))
}

/// The index behind the white space at the start of `v`.
fn skip_leading_space(v: &Vec<char>) -> (a: usize)
    ensures
        a <= v.len(),
        trim_start_text(v@) == v@.skip(a as int),
{
    let mut a: usize = 0;
    proof {
        assert(v@.skip(0) == v@);
    }
    while a < v.len() && v[a].is_whitespace()
        invariant
            a <= v.len(),
            trim_start_text(v@) == trim_start_text(v@.skip(a as int)),
        decreases v.len() - a,
    {
        proof {
            assert(v@.skip(a as int)[0] == v@[a as int]);
            assert(v@.skip(a as int).skip(1) == v@.skip(a + 1));
        }
        a += 1;
    }
    proof {
        if a < v.len() {
            assert(v@.skip(a as int)[0] == v@[a as int]);
        }
    }
    a
}

/// The index of the white space at the end of `v[from..]`.
fn skip_trailing_space(v: &Vec<char>, from: usize) -> (b: usize)
    requires
        from <= v.len(),
    ensures
        from <= b <= v.len(),
        trim_end_text(v@.skip(from as int)) == v@.subrange(from as int, b as int),
{
    let mut b: usize = v.len();
    proof {
        assert(v@.skip(from as int) == v@.subrange(from as int, b as int));
    }
    while b > from && v[b - 1].is_whitespace()
        invariant
            from <= b <= v.len(),
            trim_end_text(v@.skip(from as int)) == trim_end_text(
                v@.subrange(from as int, b as int),
            ),
        decreases b,
    {
        proof {
            let part = v@.subrange(from as int, b as int);
            assert(part.last() == v@[b - 1]);
            assert(part.drop_last() == v@.subrange(from as int, b - 1));
        }
        b -= 1;
    }
    proof {
        if b > from {
            assert(v@.subrange(from as int, b as int).last() == v@[b - 1]);
        }
    }
    b
}

/// The text without the white space at either end.
pub fn trim_text(s: &str) -> (r: String)
    ensures
        r@ == trimmed_text(s@),
{
    let v = chars_of(s);
    let a = skip_leading_space(&v);
    let b = skip_trailing_space(&v, a);
    text_of_range(&v, a, b)
}

/// The text without the white space at its end.
pub fn trim_end(s: &str) -> (r: String)
    ensures
        r@ == trim_end_text(s@),
{
    let v = chars_of(s);
    let b = skip_trailing_space(&v, 0);
    proof {
        assert(v@.skip(0) == v@);
    }
    text_of_range(&v, 0, b)
}

/// `s` with every carriage return and line feed pair replaced by one line
/// feed.
pub open spec fn unix_newlines(s: Seq<char>) -> Seq<char>
    decreases s.len(),
{
    if s.len() == 0 {
        s
    } else if s.len() >= 2 && s[0] == '\r' && s[1] == '\n' {
        seq!['\n'] + unix_newlines(s.skip(2))
    } else {
        seq![s[0]] + unix_newlines(s.skip(1))
    }
}

/// The text with every carriage return and line feed pair replaced by one
/// line feed.
pub fn normalize_newlines(s: &str) -> (r: String)
    ensures
        r@ == unix_newlines(s@),
{
    let v = chars_of(s);
    let mut out = String::new();
    let mut i: usize = 0;
    proof {
        assert(v@.skip(0) == v@);
    }
    while i < v.len()
        invariant
            i <= v.len(),
            out@ + unix_newlines(v@.skip(i as int)) == unix_newlines(v@),
        decreases v.len() - i,
    {
        let ghost rest = v@.skip(i as int);
        proof {
            assert(rest[0] == v@[i as int]);
            assert(rest.skip(1) == v@.skip(i + 1));
        }
        if v[i] == '\r' && i + 1 < v.len() && v[i + 1] == '\n' {
            proof {
                assert(rest[1] == v@[i + 1]);
                assert(rest.skip(2) == v@.skip(i + 2));
                assert(out@.push('\n') + unix_newlines(rest.skip(2)) == out@ + (seq!['\n']
                    + unix_newlines(rest.skip(2))));
            }
            out.push('\n');
            i += 2;
        } else {
            proof {
                if rest.len() >= 2 {
                    assert(rest[1] == v@[i + 1]);
                }
                assert(out@.push(rest[0]) + unix_newlines(rest.skip(1)) == out@ + (seq![rest[0]]
                    + unix_newlines(rest.skip(1))));
            }
            out.push(v[i]);
            i += 1;
        }
    }
    proof {
        assert(unix_newlines(v@.skip(v.len() as int)) == Seq::<char>::empty());
        assert(out@ + Seq::<char>::empty() == out@);
    }
    out
}

/// The character of a decimal digit.
pub open spec fn digit_char(d: int) -> char {
    (d + 48) as char
}

/// The decimal numeral of `n`, without leading zeros.
pub open spec fn decimal_text(n: nat) -> Seq<char>
    decreases n,
{
    if n < 10 {
        seq![digit_char(n as int)]
    } else {
        decimal_text(n / 10).push(digit_char((n % 10) as int))
    }
}

/// The decimal numeral of `n`, with a minus sign before a negative one.
pub open spec fn signed_decimal_text(n: int) -> Seq<char> {
    if n < 0 {
        seq!['-'] + decimal_text((-n) as nat)
    } else {
        decimal_text(n as nat)
    }
}

/// The decimal numeral of `n`, with a zero before a single digit.
pub open spec fn two_digit_text(n: nat) -> Seq<char> {
    if n < 10 {
        seq!['0', digit_char(n as int)]
    } else {
        decimal_text(n)
    }
}

fn digit(d: u64) -> (c: char)
    requires
        d < 10,
    ensures
        c == digit_char(d as int),
{
    let b: u8 = 48 + (d as u8);
    b as char
}

fn push_decimal(out: &mut String, n: u64)
    ensures
        final(out)@ == old(out)@ + decimal_text(n as nat),
    decreases n,
{
    if n < 10 {
        out.push(digit(n));
        proof {
            assert(old(out)@.push(digit_char(n as int)) == old(out)@ + decimal_text(n as nat));
        }
    } else {
        push_decimal(out, n / 10);
        out.push(digit(n % 10));
        proof {
            assert((old(out)@ + decimal_text((n / 10) as nat)).push(digit_char((n % 10) as int))
                == old(out)@ + decimal_text(n as nat));
        }
    }
}

/// Appends the decimal numeral of `n`.
pub fn push_signed_decimal(out: &mut String, n: i32)
    ensures
        final(out)@ == old(out)@ + signed_decimal_text(n as int),
{
    if n < 0 {
        out.push('-');
        let m: u64 = (-(n as i64)) as u64;
        push_decimal(out, m);
        proof {
            assert(old(out)@.push('-') + decimal_text(m as nat) == old(out)@ + (seq!['-']
                + decimal_text(m as nat)));
        }
    } else {
        push_decimal(out, n as u64);
    }
}

/// Appends the decimal numeral of `n`, with a zero before a single digit.
pub fn push_two_digits(out: &mut String, n: u32)
    ensures
        final(out)@ == old(out)@ + two_digit_text(n as nat),
{
    if n < 10 {
        out.push('0');
        out.push(digit(n as u64));
        proof {
            assert(old(out)@.push('0').push(digit_char(n as int)) == old(out)@ + two_digit_text(
                n as nat,
            ));
        }
    } else {
        push_decimal(out, n as u64);
    }
}

/// Whether `s` ends with `suffix`.
pub open spec fn has_suffix(s: Seq<char>, suffix: Seq<char>) -> bool {
    s.len() >= suffix.len() && s.skip(s.len() - suffix.len()) == suffix
}

/// `s` without its last `suffix.len()` characters.
pub open spec fn without_suffix(s: Seq<char>, suffix: Seq<char>) -> Seq<char> {
    s.take(s.len() - suffix.len())
}

/// Whether `v` ends with `suffix`.
pub fn ends_with(v: &Vec<char>, suffix: &Vec<char>) -> (r: bool)
    ensures
        r == has_suffix(v@, suffix@),
{
    if v.len() < suffix.len() {
        return false;
    }
    let start = v.len() - suffix.len();
    let mut i: usize = 0;
    while i < suffix.len()
        invariant
            start + suffix.len() == v.len(),
            i <= suffix.len(),
            forall|j: int| 0 <= j < i ==> v@[start + j] == suffix@[j],
        decreases suffix.len() - i,
    {
        if v[start + i] != suffix[i] {
            proof {
                assert(v@.skip(start as int)[i as int] == v@[start + i]);
            }
            return false;
        }
        i += 1;
    }
    proof {
        assert(v@.skip(start as int) =~= suffix@);
    }
    true
}

/// The part of `s` before the first `mark`, or all of `s` if it holds none.
pub open spec fn before_first(s: Seq<char>, mark: char) -> Seq<char>
    decreases s.len(),
{
    if s.len() == 0 || s[0] == mark {
        Seq::empty()
    } else {
        seq![s[0]] + before_first(s.skip(1), mark)
    }
}

/// The number of characters of `v` before the first `mark`.
pub fn index_of_first(v: &Vec<char>, mark: char) -> (n: usize)
    ensures
        n <= v.len(),
        before_first(v@, mark) == v@.take(n as int),
{
    let mut n: usize = 0;
    proof {
        assert(v@.skip(0) == v@);
        assert(v@.take(0) + before_first(v@, mark) == before_first(v@, mark));
    }
    while n < v.len() && v[n] != mark
        invariant
            n <= v.len(),
            before_first(v@, mark) == v@.take(n as int) + before_first(v@.skip(n as int), mark),
        decreases v.len() - n,
    {
        proof {
            let rest = v@.skip(n as int);
            assert(rest[0] == v@[n as int]);
            assert(rest.skip(1) == v@.skip(n + 1));
            assert(v@.take(n as int) + (seq![rest[0]] + before_first(rest.skip(1), mark))
                == v@.take(n + 1) + before_first(v@.skip(n + 1), mark));
        }
        n += 1;
    }
    proof {
        let rest = v@.skip(n as int);
        if n < v.len() {
            assert(rest[0] == v@[n as int]);
        }
        assert(v@.take(n as int) + Seq::<char>::empty() == v@.take(n as int));
    }
    n
}

/// Whether `a` comes before `b` when texts are ordered character by
/// character, each by its code point, a proper prefix before the longer text.
pub open spec fn text_lt(a: Seq<char>, b: Seq<char>) -> bool
    decreases a.len(),
{
    if b.len() == 0 {
        false
    } else if a.len() == 0 {
        true
    } else if a[0] != b[0] {
        (a[0] as u32) < (b[0] as u32)
    } else {
        text_lt(a.skip(1), b.skip(1))
    }
}

/// Whether `a` comes before `b` in the order of `text_lt`.
pub fn text_less(a: &Vec<char>, b: &Vec<char>) -> (r: bool)
    ensures
        r == text_lt(a@, b@),
{
    let mut i: usize = 0;
    proof {
        assert(a@.skip(0) == a@);
        assert(b@.skip(0) == b@);
    }
    while i < a.len() && i < b.len()
        invariant
            i <= a.len(),
            i <= b.len(),
            text_lt(a@, b@) == text_lt(a@.skip(i as int), b@.skip(i as int)),
        decreases a.len() - i,
    {
        proof {
            assert(a@.skip(i as int)[0] == a@[i as int]);
            assert(b@.skip(i as int)[0] == b@[i as int]);
            assert(a@.skip(i as int).skip(1) == a@.skip(i + 1));
            assert(b@.skip(i as int).skip(1) == b@.skip(i + 1));
        }
        if a[i] != b[i] {
            return (a[i] as u32) < (b[i] as u32);
        }
        i += 1;
    }
    i < b.len()
}

proof fn lemma_distinct_codes(a: char, b: char)
    ensures
        a != b ==> a as u32 != b as u32,
{
}

/// Of two different texts one comes before the other.
pub proof fn lemma_text_lt_total(a: Seq<char>, b: Seq<char>)
    ensures
        text_lt(a, b) || text_lt(b, a) || a == b,
        !(text_lt(a, b) && text_lt(b, a)),
    decreases a.len(),
{
    if a.len() > 0 && b.len() > 0 && a[0] == b[0] {
        lemma_text_lt_total(a.skip(1), b.skip(1));
        if a.skip(1) == b.skip(1) {
            assert(a =~= seq![a[0]] + a.skip(1));
            assert(b =~= seq![b[0]] + b.skip(1));
        }
    } else if a.len() == 0 && b.len() == 0 {
        assert(a =~= b);
    } else if a.len() > 0 && b.len() > 0 {
        lemma_distinct_codes(a[0], b[0]);
    }
}

/// The order of texts is transitive.
pub proof fn lemma_text_lt_transitive(a: Seq<char>, b: Seq<char>, c: Seq<char>)
    requires
        text_lt(a, b),
        text_lt(b, c),
    ensures
        text_lt(a, c),
    decreases a.len(),
{
    if a.len() > 0 && a[0] == b[0] && b[0] == c[0] {
        lemma_text_lt_transitive(a.skip(1), b.skip(1), c.skip(1));
    }
}

/// The maximal runs of characters of `s` that are not white space, in order.
pub open spec fn words(s: Seq<char>) -> Seq<Seq<char>>
    decreases s.len(),
{
    if s.len() == 0 {
        Seq::empty()
    } else {
        let before = words(s.drop_last());
        if space_char(s.last()) {
            before
        } else if s.len() >= 2 && !space_char(s[s.len() - 2]) {
            before.drop_last().push(before.last().push(s.last()))
        } else {
            before.push(seq![s.last()])
        }
    }
}

/// The parts in order, with `sep` between each two neighbours.
pub open spec fn join_with(parts: Seq<Seq<char>>, sep: Seq<char>) -> Seq<char>
    decreases parts.len(),
{
    if parts.len() == 0 {
        Seq::empty()
    } else if parts.len() == 1 {
        parts[0]
    } else {
        join_with(parts.drop_last(), sep) + sep + parts.last()
    }
}

/// Every word is non-empty and holds no white space; its characters have
/// every property that the characters of `s` outside white space have. A text
/// that ends outside white space has a last word.
pub proof fn lemma_words_chars(s: Seq<char>, p: spec_fn(char) -> bool)
    requires
        forall|i: int| 0 <= i < s.len() && !space_char(s[i]) ==> p(#[trigger] s[i]),
    ensures
        forall|k: int| 0 <= k < words(s).len() ==> (#[trigger] words(s)[k]).len() > 0,
        forall|k: int, j: int|
            0 <= k < words(s).len() && 0 <= j < words(s)[k].len() ==> {
                &&& p(#[trigger] words(s)[k][j])
                &&& !space_char(words(s)[k][j])
            },
        s.len() > 0 && !space_char(s.last()) ==> words(s).len() > 0,
    decreases s.len(),
{
    if s.len() > 0 {
        let before = words(s.drop_last());
        lemma_words_chars(s.drop_last(), p);
        assert(forall|i: int| 0 <= i < s.len() - 1 ==> s.drop_last()[i] == s[i]);
        if !space_char(s.last()) {
            assert(p(s[s.len() - 1]));
            if s.len() >= 2 && !space_char(s[s.len() - 2]) {
                assert(s.drop_last().last() == s[s.len() - 2]);
                let grown = before.last().push(s.last());
                let w = before.drop_last().push(grown);
                assert(words(s) == w);
                assert forall|k: int, j: int| 0 <= k < w.len() && 0 <= j < w[k].len() implies p(
                    #[trigger] w[k][j],
                ) && !space_char(w[k][j]) by {
                    if k < w.len() - 1 {
                        assert(w[k] == before[k]);
                    } else if j < grown.len() - 1 {
                        assert(w[k][j] == before[before.len() - 1][j]);
                    }
                }
                assert forall|k: int| 0 <= k < w.len() implies (#[trigger] w[k]).len() > 0 by {
                    if k < w.len() - 1 {
                        assert(w[k] == before[k]);
                    }
                }
            } else {
                let w = before.push(seq![s.last()]);
                assert(words(s) == w);
                assert forall|k: int, j: int| 0 <= k < w.len() && 0 <= j < w[k].len() implies p(
                    #[trigger] w[k][j],
                ) && !space_char(w[k][j]) by {
                    if k < w.len() - 1 {
                        assert(w[k] == before[k]);
                    }
                }
                assert forall|k: int| 0 <= k < w.len() implies (#[trigger] w[k]).len() > 0 by {
                    if k < w.len() - 1 {
                        assert(w[k] == before[k]);
                    }
                }
            }
        }
    }
}

/// Joining after one more part: the part alone, or the old text, the
/// separator and the part.
pub proof fn lemma_join_push(parts: Seq<Seq<char>>, sep: Seq<char>, part: Seq<char>)
    ensures
        join_with(parts.push(part), sep) == if parts.len() == 0 {
            part
        } else {
            join_with(parts, sep) + sep + part
        },
{
    assert(parts.push(part).drop_last() == parts);
}

/// Growing the last part by one character grows the joined text by it.
pub proof fn lemma_join_grow_last(parts: Seq<Seq<char>>, sep: Seq<char>, c: char)
    requires
        parts.len() > 0,
    ensures
        join_with(parts.drop_last().push(parts.last().push(c)), sep) == join_with(parts, sep).push(
            c,
        ),
{
    let grown = parts.drop_last().push(parts.last().push(c));
    assert(grown.drop_last() == parts.drop_last());
    if parts.len() > 1 {
        assert(join_with(parts.drop_last(), sep) + sep + parts.last().push(c) == (join_with(
            parts.drop_last(),
            sep,
        ) + sep + parts.last()).push(c));
    }
}

/// Non-empty parts join to a non-empty text.
pub proof fn lemma_join_nonempty(parts: Seq<Seq<char>>, sep: Seq<char>)
    requires
        parts.len() > 0,
        forall|k: int| 0 <= k < parts.len() ==> (#[trigger] parts[k]).len() > 0,
    ensures
        join_with(parts, sep).len() > 0,
{
    assert(parts.last().len() > 0);
}

/// The views of the texts, in order.
pub open spec fn text_views(texts: Seq<String>) -> Seq<Seq<char>> {
    texts.map_values(|t: String| t@)
}

/// The texts in order, with `sep` between each two neighbours.
pub fn join_texts(parts: &Vec<String>, sep: &str) -> (r: String)
    ensures
        r@ == join_with(text_views(parts@), sep@),
{
    let ghost views = text_views(parts@);
    let mut out = String::new();
    let mut i: usize = 0;
    while i < parts.len()
        invariant
            i <= parts.len(),
            views == text_views(parts@),
            out@ == join_with(views.take(i as int), sep@),
        decreases parts.len() - i,
    {
        proof {
            assert(views.take(i + 1) == views.take(i as int).push(parts@[i as int]@));
            lemma_join_push(views.take(i as int), sep@, parts@[i as int]@);
        }
        if i > 0 {
            out.append(sep);
        }
        out.append(parts[i].as_str());
        i += 1;
    }
    proof {
        assert(views.take(parts.len() as int) == views);
    }
    out
}

/// A property of every character of the parts and of the separator holds of
/// every character of the joined text.
pub proof fn lemma_join_chars(parts: Seq<Seq<char>>, sep: Seq<char>, p: spec_fn(char) -> bool)
    requires
        forall|k: int, j: int|
            0 <= k < parts.len() && 0 <= j < parts[k].len() ==> p(#[trigger] parts[k][j]),
        forall|j: int| 0 <= j < sep.len() ==> p(#[trigger] sep[j]),
    ensures
        forall|i: int| 0 <= i < join_with(parts, sep).len() ==> p(#[trigger] join_with(parts, sep)[i]),
    decreases parts.len(),
{
    if parts.len() > 1 {
        let head = join_with(parts.drop_last(), sep);
        assert forall|k: int, j: int|
            0 <= k < parts.drop_last().len() && 0 <= j < parts.drop_last()[k].len() implies p(
            #[trigger] parts.drop_last()[k][j],
        ) by {
            assert(parts.drop_last()[k] == parts[k]);
        }
        lemma_join_chars(parts.drop_last(), sep, p);
        let all = head + sep + parts.last();
        assert forall|i: int| 0 <= i < all.len() implies p(#[trigger] all[i]) by {
            if i < head.len() {
                assert(all[i] == head[i]);
            } else if i < head.len() + sep.len() {
                assert(all[i] == sep[i - head.len()]);
            } else {
                assert(all[i] == parts[parts.len() - 1][i - head.len() - sep.len()]);
            }
        }
    }
}

/// Mapping every character commutes with joining.
pub proof fn lemma_join_map(parts: Seq<Seq<char>>, sep: Seq<char>, f: spec_fn(char) -> char)
    ensures
        join_with(parts, sep).map_values(f) == join_with(
            parts.map_values(|w: Seq<char>| w.map_values(f)),
            sep.map_values(f),
        ),
    decreases parts.len(),
{
    let mapped = parts.map_values(|w: Seq<char>| w.map_values(f));
    if parts.len() == 0 {
        assert(join_with(parts, sep).map_values(f) == Seq::<char>::empty());
    } else if parts.len() == 1 {
    } else {
        lemma_join_map(parts.drop_last(), sep, f);
        assert(mapped.drop_last() == parts.drop_last().map_values(
            |w: Seq<char>| w.map_values(f),
        ));
        assert((join_with(parts.drop_last(), sep) + sep + parts.last()).map_values(f)
            == join_with(parts.drop_last(), sep).map_values(f) + sep.map_values(f)
            + parts.last().map_values(f));
    }
}

} // verus!
