//! Cutting text up and putting it together.

use vstd::prelude::*;

use crate::text::{
    after_prefix, is_before, is_white, join, joined, lemma_word_before_white, lines, no_white,
    occurs_at, position, replace_char, replaced, same_text, slice_text, split_lines, split_words,
    text_before, texts, to_chars, trim, trim_end, trim_start, trimmed, words, words_around_white,
};

verus! {

/// Text without white space is one word, and no text has no words. With
/// [`words_around_white`] this says what the words of every text are.
pub proof fn unbroken_text_is_one_word(s: Seq<char>)
    requires
        no_white(s),
    ensures
        s.len() > 0 ==> words(s) == seq![s],
        s.len() == 0 ==> words(s) == Seq::<Seq<char>>::empty(),
{
    if s.len() > 0 {
        let none = Seq::<char>::empty();
        lemma_word_before_white(s, ' ', none);
        words_around_white(s, ' ', none);
        assert(words(s) + words(none) =~= words(s));
        assert(seq![s] + words(none) =~= seq![s]);
    }
}

/// Splitting gives a text's words, one for one, and what is split at white space
/// is split in parts.
pub proof fn splitting_gives_the_words(s: &str, list: Vec<String>)
    requires
        call_ensures(split_words, (s,), list),
    ensures
        list@.len() == words(s@).len(),
        forall|i: int| 0 <= i < list@.len() ==> (#[trigger] list@[i])@ == words(s@)[i],
        forall|i: int|
            0 <= i < list@.len() ==> (#[trigger] list@[i])@.len() > 0 && no_white(list@[i]@),
{
    assert(texts(list@).len() == list@.len());
    assert forall|i: int| 0 <= i < list@.len() implies (#[trigger] list@[i])@ == words(s@)[i] by {
        assert(texts(list@)[i] == list@[i]@);
    }
    words_are_words(s@);
}

/// Words are not empty and hold no white space.
pub proof fn words_are_words(s: Seq<char>)
    ensures
        forall|i: int|
            0 <= i < words(s).len() ==> (#[trigger] words(s)[i]).len() > 0 && no_white(words(s)[i]),
    decreases s.len(),
{
    if s.len() > 0 {
        if is_white(s[0]) {
            words_are_words(s.skip(1));
            assert(words(s) == words(s.skip(1)));
        } else {
            crate::text::lemma_word_len(s);
            let n = crate::text::word_len(s) as int;
            words_are_words(s.skip(n));
            assert forall|i: int| 0 <= i < words(s).len() implies (#[trigger] words(s)[i]).len() > 0
                && no_white(words(s)[i]) by {
                if i > 0 {
                    assert(words(s)[i] == words(s.skip(n))[i - 1]);
                } else {
                    assert(words(s)[0] == s.take(n));
                }
            }
        }
    }
}

/// The characters of a text are taken one for one, and slices are what stands between
/// their bounds.
pub proof fn slices_stand_in_the_text(
    s: &str,
    chars: Vec<char>,
    from: usize,
    to: usize,
    slice: String,
)
    requires
        call_ensures(to_chars, (s,), chars),
        call_ensures(slice_text, (&chars, from, to), slice),
        from <= to <= s@.len(),
    ensures
        chars@ == s@,
        slice@ == s@.subrange(from as int, to as int),
{
}

/// Whether every character of `s` is white space.
pub open spec fn all_white(s: Seq<char>) -> bool {
    forall|i: int| 0 <= i < s.len() ==> is_white(#[trigger] s[i])
}

/// Trimming takes away white space at both ends and nothing else, and leaves none
/// there.
pub proof fn trimming_takes_white_ends(s: &str, t: String)
    requires
        call_ensures(trim, (s,), t),
    ensures
        t@ == trimmed(s@),
        exists|a: int, b: int| #[trigger] trimmed_to(s@, t@, a, b),
{
    trim_bounds(s@);
}

/// Whether `t` is what stands in `s` from `a` to `b`, with only white space outside
/// and none at its ends.
pub open spec fn trimmed_to(s: Seq<char>, t: Seq<char>, a: int, b: int) -> bool {
    &&& 0 <= a <= b <= s.len()
    &&& t == s.subrange(a, b)
    &&& all_white(s.take(a))
    &&& all_white(s.skip(b))
    &&& t.len() > 0 ==> !is_white(t[0]) && !is_white(t.last())
}

/// A text is trimmed to what is left between white space at its ends.
pub proof fn trim_bounds(s: Seq<char>)
    ensures
        exists|a: int, b: int| #[trigger] trimmed_to(s, trimmed(s), a, b),
{
    let a = lemma_trim_start(s);
    let m = s.skip(a);
    let n = lemma_trim_end(m);
    let t = trimmed(s);
    assert(t == m.take(n));
    assert(t =~= s.subrange(a, a + n));
    assert(s.skip(a + n) =~= m.skip(n));
    assert(t.len() > 0 ==> t[0] == m[0]);
    assert(trimmed_to(s, t, a, a + n));
}

proof fn lemma_trim_start(s: Seq<char>) -> (a: int)
    ensures
        0 <= a <= s.len(),
        trim_start(s) == s.skip(a),
        all_white(s.take(a)),
        a < s.len() ==> !is_white(s[a]),
    decreases s.len(),
{
    if s.len() > 0 && is_white(s[0]) {
        let r = s.skip(1);
        let b = lemma_trim_start(r);
        assert(r.skip(b) =~= s.skip(b + 1));
        assert forall|i: int| 0 <= i < b + 1 implies is_white(#[trigger] s.take(b + 1)[i]) by {
            if i > 0 {
                assert(r.take(b)[i - 1] == s[i]);
            }
        }
        b + 1
    } else {
        assert(s.skip(0) =~= s);
        0
    }
}

proof fn lemma_trim_end(s: Seq<char>) -> (n: int)
    ensures
        0 <= n <= s.len(),
        trim_end(s) == s.take(n),
        all_white(s.skip(n)),
        n > 0 ==> !is_white(s[n - 1]),
    decreases s.len(),
{
    if s.len() > 0 && is_white(s.last()) {
        let r = s.drop_last();
        let n = lemma_trim_end(r);
        assert(r.take(n) =~= s.take(n));
        assert forall|i: int| 0 <= i < s.len() - n implies is_white(#[trigger] s.skip(n)[i]) by {
            if i < r.len() - n {
                assert(r.skip(n)[i] == s[n + i]);
            }
        }
        n
    } else {
        assert(s.take(s.len() as int) =~= s);
        s.len() as int
    }
}

/// Joining puts the separator between each two neighbours: two lists joined
/// one after the other have one separator between them.
pub proof fn joining_puts_separators_between(a: Seq<Seq<char>>, b: Seq<Seq<char>>, sep: Seq<char>)
    ensures
        a.len() == 0 ==> joined(a, sep) == Seq::<char>::empty(),
        a.len() == 1 ==> joined(a, sep) == a[0],
        a.len() > 0 && b.len() > 0 ==> joined(a + b, sep) == joined(a, sep) + sep + joined(b, sep),
    decreases b.len(),
{
    if a.len() > 0 && b.len() > 0 {
        let front = b.drop_last();
        assert((a + b).drop_last() =~= a + front);
        assert((a + b).last() == b.last());
        if b.len() == 1 {
            assert(a + front =~= a);
        } else {
            joining_puts_separators_between(a, front, sep);
            assert(joined(a + b, sep) =~= joined(a, sep) + sep + joined(b, sep));
        }
    }
}

/// Joining takes the parts as they are.
pub proof fn join_takes_the_parts(parts: &Vec<String>, sep: &str, s: String)
    requires
        call_ensures(join, (parts, sep), s),
    ensures
        exists|list: Seq<Seq<char>>|
            {
                &&& list.len() == parts@.len()
                &&& forall|i: int| 0 <= i < list.len() ==> #[trigger] list[i] == parts@[i]@
                &&& s@ == #[trigger] joined(list, sep@)
            },
{
    let list = texts(parts@);
    assert(s@ == joined(list, sep@));
}

/// Replacing a character changes that character, wherever it stands, and nothing
/// else.
pub proof fn replacing_is_character_by_character(s: &str, from: char, to: char, t: String)
    requires
        call_ensures(replace_char, (s, from, to), t),
    ensures
        t@.len() == s@.len(),
        forall|i: int|
            0 <= i < s@.len() ==> #[trigger] t@[i] == if s@[i] == from {
                to
            } else {
                s@[i]
            },
{
    assert(t@ == replaced(s@, from, to));
}

proof fn lemma_position_is(l: Seq<char>, c: char, rest: Seq<char>)
    requires
        !l.contains(c),
    ensures
        position(l, c) == l.len(),
        position(l + seq![c] + rest, c) == l.len(),
    decreases l.len(),
{
    let s = l + seq![c] + rest;
    if l.len() == 0 {
        assert(s[0] == c);
    } else {
        let r = l.skip(1);
        assert(l.contains(l[0]));
        assert(s[0] == l[0]);
        assert(s.skip(1) =~= r + seq![c] + rest);
        assert forall|i: int| 0 <= i < r.len() implies r[i] != c by {
            assert(l[i + 1] == r[i]);
            assert(l.contains(l[i + 1]));
        }
        lemma_position_is(r, c, rest);
    }
}

/// Text is cut into lines at its line feeds; a carriage return before the line
/// feed goes with it, and the last line needs no line feed.
pub proof fn lines_end_at_line_feeds(line: Seq<char>, rest: Seq<char>)
    requires
        !line.contains('\n'),
    ensures
        lines(Seq::empty()) == Seq::<Seq<char>>::empty(),
        line.len() > 0 ==> lines(line) == seq![line],
        line.len() == 0 || line.last() != '\r' ==> lines(line + seq!['\n'] + rest) == seq![line]
            + lines(rest),
        lines(line + seq!['\r', '\n'] + rest) == seq![line] + lines(rest),
{
    lemma_position_is(line, '\n', rest);
    let s = line + seq!['\n'] + rest;
    let n = line.len() as int;
    assert(s.take(n) =~= line);
    assert(s.skip(n + 1) =~= rest);
    let ended = line.push('\r');
    assert forall|i: int| 0 <= i < ended.len() implies ended[i] != '\n' by {
        if i < line.len() {
            assert(line.contains(line[i]));
        }
    }
    lemma_position_is(ended, '\n', rest);
    let t = ended + seq!['\n'] + rest;
    assert(line + seq!['\r', '\n'] + rest =~= t);
    assert(t.take(n + 1) =~= ended);
    assert(t.skip(n + 2) =~= rest);
    assert(ended.drop_last() =~= line);
}

/// Splitting into lines gives the lines, one for one.
pub proof fn splitting_gives_the_lines(s: &str, list: Vec<String>)
    requires
        call_ensures(split_lines, (s,), list),
    ensures
        list@.len() == lines(s@).len(),
        forall|i: int| 0 <= i < list@.len() ==> (#[trigger] list@[i])@ == lines(s@)[i],
{
    assert(texts(list@).len() == list@.len());
    assert forall|i: int| 0 <= i < list@.len() implies (#[trigger] list@[i])@ == lines(s@)[i] by {
        assert(texts(list@)[i] == list@[i]@);
    }
}

/// The first difference decides the order of texts, and a text comes before its
/// continuations.
pub proof fn first_difference_decides(p: Seq<char>, a: Seq<char>, b: Seq<char>)
    ensures
        text_before(p + a, p + b) == text_before(a, b),
        a.len() > 0 && b.len() > 0 && a[0] != b[0] ==> text_before(a, b) == (a[0] < b[0]),
        a.len() == 0 ==> text_before(a, b) == (b.len() > 0),
        b.len() == 0 ==> !text_before(a, b),
    decreases p.len(),
{
    if p.len() == 0 {
        assert(p + a =~= a);
        assert(p + b =~= b);
    } else {
        assert((p + a).skip(1) =~= p.skip(1) + a);
        assert((p + b).skip(1) =~= p.skip(1) + b);
        first_difference_decides(p.skip(1), a, b);
    }
}

/// Comparing texts goes by that order, and by the characters.
pub proof fn comparing_goes_by_the_characters(a: &str, b: &str, before: bool, same: bool)
    requires
        call_ensures(is_before, (a, b), before),
        call_ensures(same_text, (a, b), same),
    ensures
        before == text_before(a@, b@),
        same <==> a@ == b@,
        before ==> !same,
{
    crate::text::text_order_is_strict(a@);
}

/// What follows a prefix is what the text has besides it, and a text that does not
/// start with the prefix has no such rest.
pub proof fn prefix_and_rest_make_the_text(s: &str, prefix: &str, rest: Option<String>)
    requires
        call_ensures(after_prefix, (s, prefix), rest),
    ensures
        rest matches Some(t) ==> s@ == prefix@ + t@,
        rest is None ==> forall|t: Seq<char>| s@ != #[trigger] (prefix@ + t),
{
    if let Some(t) = rest {
        assert(s@.subrange(0, prefix@.len() as int) == prefix@);
        assert(s@ =~= prefix@ + t@);
    } else {
        assert forall|t: Seq<char>| s@ != #[trigger] (prefix@ + t) by {
            if s@ == prefix@ + t {
                assert(s@.subrange(0, prefix@.len() as int) =~= prefix@);
                assert(occurs_at(s@, prefix@, 0));
            }
        }
    }
}

} // verus!
