//! File-name-safe slugs of post titles.

use crate::text::{
    alnum_char, ascii_alnum_char, ascii_lower, chars_of, is_ascii_char, is_ascii_text, join_with,
    lemma_join_chars, lemma_join_map, lemma_join_grow_last, lemma_join_nonempty,
    lemma_join_push, lemma_words_chars, lowercase_text, space_char, words,
};
use vstd::prelude::*;

verus! {

/// The title with every character that is not alphabetic or numeric replaced
/// by a space.
pub open spec fn blank_out(s: Seq<char>) -> Seq<char> {
    s.map_values(|c: char| if alnum_char(c) { c } else { ' ' })
}

/// The words of `s`, joined by single hyphens.
pub open spec fn hyphenated(s: Seq<char>) -> Seq<char> {
    join_with(words(s), seq!['-'])
}

/// The slug of a title: its runs of letters and digits, joined by hyphens, in
/// lowercase.
pub open spec fn slug_text(title: Seq<char>) -> Seq<char> {
    lowercase_text(hyphenated(blank_out(title)))
}

/// Collapses each run of white space into one hyphen and drops white space at
/// both ends.
pub fn trim_whitespace(s: &str) -> (result: String)
    ensures
        result@ == hyphenated(s@),
{
    let chars = chars_of(s);
    let mut result = String::new();
    let mut in_word = false;
    let mut i: usize = 0;
    while i < chars.len()
        invariant
            i <= chars.len(),
            result@ == hyphenated(chars@.take(i as int)),
            in_word == (i > 0 && !space_char(chars@[i - 1])),
        decreases chars.len() - i,
    {
        let c = chars[i];
        proof {
            let seen = chars@.take(i as int);
            let next = chars@.take(i + 1);
            assert(next.drop_last() == seen);
            assert(next.last() == c);
            lemma_words_chars(seen, |c: char| true);
            if i > 0 {
                assert(seen.last() == chars@[i - 1]);
                assert(next[next.len() - 2] == chars@[i - 1]);
            }
            if words(seen).len() > 0 {
                lemma_join_nonempty(words(seen), seq!['-']);
                lemma_join_grow_last(words(seen), seq!['-'], c);
            }
            lemma_join_push(words(seen), seq!['-'], seq![c]);
        }
        if !c.is_whitespace() {
            if !in_word && !result.as_str().is_empty() {
                result.push('-');
            }
            result.push(c);
            in_word = true;
        } else {
            in_word = false;
        }
        i += 1;
    }
    proof {
        assert(chars@.take(chars.len() as int) == chars@);
    }
    result
}

/// The slug of `title`, safe to use in a file name and in a URL.
pub fn create_file_name_safe_title(title: &str) -> (slug: String)
    ensures
        slug@ == slug_text(title@),
{
    let chars = chars_of(title);
    let mut spaced = String::new();
    let mut i: usize = 0;
    while i < chars.len()
        invariant
            i <= chars.len(),
            spaced@ == blank_out(chars@.take(i as int)),
        decreases chars.len() - i,
    {
        let c = chars[i];
        proof {
            assert(chars@.take(i + 1) == chars@.take(i as int).push(c));
        }
        if c.is_alphanumeric() {
            spaced.push(c);
        } else {
            spaced.push(' ');
        }
        i += 1;
    }
    proof {
        assert(chars@.take(chars.len() as int) == chars@);
    }
    let joined = trim_whitespace(spaced.as_str());
    joined.as_str().to_lowercase()
}

/// A non-empty run of letters and digits, none of them white space.
pub open spec fn solid_word(w: Seq<char>) -> bool {
    &&& w.len() > 0
    &&& forall|j: int| 0 <= j < w.len() ==> alnum_char(#[trigger] w[j]) && !space_char(w[j])
}

pub open spec fn solid_words(parts: Seq<Seq<char>>) -> bool {
    forall|k: int| 0 <= k < parts.len() ==> solid_word(#[trigger] parts[k])
}

proof fn lemma_words_of_word(w: Seq<char>)
    requires
        solid_word(w),
    ensures
        words(w) == seq![w],
    decreases w.len(),
{
    if w.len() == 1 {
        assert(words(w.drop_last()) == Seq::<Seq<char>>::empty());
        assert(seq![w.last()] == w);
    } else {
        assert(solid_word(w.drop_last())) by {
            assert(forall|j: int| 0 <= j < w.len() - 1 ==> w.drop_last()[j] == w[j]);
        }
        lemma_words_of_word(w.drop_last());
        assert(!space_char(w[w.len() - 2]));
        assert(w.drop_last().push(w.last()) == w);
        assert(seq![w.drop_last()].drop_last().push(w) == seq![w]);
    }
}

proof fn lemma_words_append_word(y: Seq<char>, w: Seq<char>)
    requires
        solid_word(w),
    ensures
        words(y + seq![' '] + w) == words(y).push(w),
    decreases w.len(),
{
    let all = y + seq![' '] + w;
    assert(all.last() == w.last());
    assert(!space_char(w[w.len() - 1]));
    if w.len() == 1 {
        assert(all.drop_last() == y + seq![' ']);
        assert((y + seq![' ']).drop_last() == y);
        assert(space_char((y + seq![' ']).last()));
        assert(words(y + seq![' ']) == words(y));
        assert(all[all.len() - 2] == ' ');
        assert(seq![w.last()] == w);
    } else {
        assert(solid_word(w.drop_last())) by {
            assert(forall|j: int| 0 <= j < w.len() - 1 ==> w.drop_last()[j] == w[j]);
        }
        lemma_words_append_word(y, w.drop_last());
        assert(all.drop_last() == y + seq![' '] + w.drop_last());
        assert(all[all.len() - 2] == w[w.len() - 2]);
        assert(!space_char(w[w.len() - 2]));
        assert(w.drop_last().push(w.last()) == w);
        assert(words(y).push(w.drop_last()).drop_last() == words(y));
    }
}

/// Splitting what was joined by hyphens gives the words back.
pub proof fn lemma_words_of_joined(parts: Seq<Seq<char>>)
    requires
        solid_words(parts),
    ensures
        words(blank_out(join_with(parts, seq!['-']))) == parts,
    decreases parts.len(),
{
    let sep = seq!['-'];
    if parts.len() == 0 {
        assert(blank_out(join_with(parts, sep)) == Seq::<char>::empty());
    } else if parts.len() == 1 {
        assert(solid_word(parts[0]));
        assert(blank_out(parts[0]) == parts[0]);
        lemma_words_of_word(parts[0]);
        assert(seq![parts[0]] == parts);
    } else {
        let head = join_with(parts.drop_last(), sep);
        let w = parts.last();
        assert(solid_word(w));
        assert(solid_words(parts.drop_last())) by {
            assert(forall|k: int|
                0 <= k < parts.len() - 1 ==> parts.drop_last()[k] == parts[k]);
        }
        lemma_words_of_joined(parts.drop_last());
        assert(blank_out(w) == w);
        assert(!alnum_char('-'));
        assert(blank_out(sep) == seq![' ']);
        assert(blank_out(head + sep + w) == blank_out(head) + seq![' '] + w);
        lemma_words_append_word(blank_out(head), w);
        assert(parts.drop_last().push(w) == parts);
    }
}

/// A text made of runs of letters and digits with single hyphens between
/// them, which lowercasing leaves unchanged, is its own slug.
pub proof fn lemma_slug_fixed_point(parts: Seq<Seq<char>>)
    requires
        solid_words(parts),
        lowercase_text(join_with(parts, seq!['-'])) == join_with(parts, seq!['-']),
    ensures
        slug_text(join_with(parts, seq!['-'])) == join_with(parts, seq!['-']),
{
    lemma_words_of_joined(parts);
}

/// A small ASCII letter, a digit or a hyphen.
pub open spec fn slug_char(c: char) -> bool {
    ||| '0' as u32 <= c as u32 <= '9' as u32
    ||| 'a' as u32 <= c as u32 <= 'z' as u32
    ||| c == '-'
}

/// The slug of a title whose letters and digits are all ASCII, taken apart:
/// it is made of runs of small letters and digits with single hyphens
/// between them, and lowercasing leaves it unchanged.
proof fn lemma_slug_words(title: Seq<char>) -> (parts: Seq<Seq<char>>)
    requires
        forall|i: int|
            0 <= i < title.len() && alnum_char(title[i]) ==> is_ascii_char(#[trigger] title[i]),
    ensures
        slug_text(title) == join_with(parts, seq!['-']),
        solid_words(parts),
        lowercase_text(slug_text(title)) == slug_text(title),
        forall|i: int| 0 <= i < slug_text(title).len() ==> slug_char(#[trigger] slug_text(title)[i]),
{
    let sep = seq!['-'];
    let spaced = blank_out(title);
    let words = words(spaced);
    let letter = |c: char| is_ascii_char(c) && ascii_alnum_char(c);
    let plain = |c: char| is_ascii_char(c) && (ascii_alnum_char(c) || c == '-');
    let lower = |c: char| ascii_lower(c);
    assert forall|i: int| 0 <= i < spaced.len() && !space_char(spaced[i]) implies letter(
        #[trigger] spaced[i],
    ) by {
        assert(space_char(' '));
        assert(spaced[i] == title[i]);
    }
    lemma_words_chars(spaced, letter);
    let joined = join_with(words, sep);
    assert forall|k: int, j: int| 0 <= k < words.len() && 0 <= j < words[k].len() implies plain(
        #[trigger] words[k][j],
    ) by {
        assert(letter(words[k][j]));
    }
    lemma_join_chars(words, sep, plain);
    assert(is_ascii_text(joined)) by {
        assert forall|i: int| 0 <= i < joined.len() implies is_ascii_char(#[trigger] joined[i]) by {
            assert(plain(joined[i]));
        }
    }
    let parts = words.map_values(|w: Seq<char>| w.map_values(lower));
    lemma_join_map(words, sep, lower);
    assert(sep.map_values(lower) == sep);
    assert(slug_text(title) == join_with(parts, sep));
    assert forall|k: int| 0 <= k < parts.len() implies solid_word(#[trigger] parts[k]) by {
        assert(words[k].len() > 0);
        assert forall|j: int| 0 <= j < parts[k].len() implies alnum_char(#[trigger] parts[k][j])
            && !space_char(parts[k][j]) by {
            assert(letter(words[k][j]));
            assert(!space_char(words[k][j]));
            assert(parts[k] == words[k].map_values(lower));
            assert(parts[k][j] == ascii_lower(words[k][j]));
            lemma_ascii_lower_alnum(words[k][j]);
        }
    }
    let slug = join_with(parts, sep);
    assert forall|i: int| 0 <= i < slug.len() implies is_ascii_char(#[trigger] slug[i])
        && ascii_lower(slug[i]) == slug[i] && slug_char(slug[i]) by {
        assert(slug[i] == ascii_lower(joined[i]));
        assert(plain(joined[i]));
        lemma_ascii_lower_alnum(joined[i]);
    }
    assert(slug.map_values(lower) == slug);
    parts
}

/// Taking the slug twice gives what taking it once gives, for every title
/// whose letters and digits are all ASCII.
pub proof fn lemma_slug_idempotent(title: Seq<char>)
    requires
        forall|i: int|
            0 <= i < title.len() && alnum_char(title[i]) ==> is_ascii_char(#[trigger] title[i]),
    ensures
        slug_text(slug_text(title)) == slug_text(title),
{
    let parts = lemma_slug_words(title);
    lemma_slug_fixed_point(parts);
}

/// The slug of a title whose letters and digits are all ASCII holds nothing
/// but small ASCII letters, digits and hyphens.
pub proof fn lemma_slug_is_safe(title: Seq<char>)
    requires
        forall|i: int|
            0 <= i < title.len() && alnum_char(title[i]) ==> is_ascii_char(#[trigger] title[i]),
    ensures
        forall|i: int| 0 <= i < slug_text(title).len() ==> slug_char(#[trigger] slug_text(title)[i]),
{
    let parts = lemma_slug_words(title);
}

proof fn lemma_ascii_lower_alnum(c: char)
    requires
        is_ascii_char(c),
    ensures
        is_ascii_char(ascii_lower(c)),
        ascii_lower(ascii_lower(c)) == ascii_lower(c),
        ascii_alnum_char(c) ==> ascii_alnum_char(ascii_lower(c)),
        ascii_alnum_char(c) && !space_char(c) ==> !space_char(ascii_lower(c)),
        ascii_alnum_char(c) || c == '-' ==> slug_char(ascii_lower(c)),
{
    let l = ascii_lower(c);
    if 'A' as u32 <= c as u32 <= 'Z' as u32 {
        assert(l as u32 == c as u32 + 32);
    }
}

} // verus!
