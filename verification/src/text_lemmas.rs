//! Facts about trimming, searching, splitting and joining that the
//! grammar's own laws rest on.

use crate::text::{
    find, index_of, is_space, join, lemma_find_from, lemma_find_is, lemma_index_of,
    lemma_index_of_is, lemma_index_of_none, lemma_trim_end_skips, lemma_trim_start_skips,
    occurs_at, split, trim, trim_end, trim_start,
};
use vstd::prelude::*;

verus! {

/// Every character of `s` is white space.
pub open spec fn all_spaces(s: Seq<char>) -> bool {
    forall|i: int| 0 <= i < s.len() ==> is_space(#[trigger] s[i])
}

/// `s` neither begins nor ends with white space.
pub open spec fn is_trimmed(s: Seq<char>) -> bool {
    s.len() == 0 || (!is_space(s.first()) && !is_space(s.last()))
}

/// `keyword` stands nowhere in `s`.
pub open spec fn lacks(s: Seq<char>, keyword: Seq<char>) -> bool {
    forall|i: int| !occurs_at(s, keyword, i)
}

/// The character `c` stands nowhere in `s`.
pub open spec fn lacks_char(s: Seq<char>, c: char) -> bool {
    forall|i: int| 0 <= i < s.len() ==> #[trigger] s[i] != c
}

/// `trim_start` removes a run of leading spaces and nothing else.
pub proof fn lemma_trim_start_shape(s: Seq<char>) -> (i: int)
    ensures
        0 <= i <= s.len(),
        trim_start(s) == s.subrange(i, s.len() as int),
        forall|k: int| 0 <= k < i ==> is_space(#[trigger] s[k]),
        i < s.len() ==> !is_space(s[i]),
    decreases s.len(),
{
    if s.len() > 0 && is_space(s.first()) {
        let t = s.drop_first();
        let j = lemma_trim_start_shape(t);
        assert forall|k: int| 0 <= k < j + 1 implies is_space(#[trigger] s[k]) by {
            if k > 0 {
                assert(s[k] == t[k - 1]);
            }
        }
        j + 1
    } else {
        0
    }
}

/// `trim_end` removes a run of trailing spaces and nothing else.
pub proof fn lemma_trim_end_shape(s: Seq<char>) -> (j: int)
    ensures
        0 <= j <= s.len(),
        trim_end(s) == s.subrange(0, j),
        forall|k: int| j <= k < s.len() ==> is_space(#[trigger] s[k]),
        0 < j ==> !is_space(s[j - 1]),
    decreases s.len(),
{
    if s.len() > 0 && is_space(s.last()) {
        let t = s.drop_last();
        let j = lemma_trim_end_shape(t);
        assert forall|k: int| j <= k < s.len() implies is_space(#[trigger] s[k]) by {
            if k < t.len() {
                assert(s[k] == t[k]);
            }
        }
        j
    } else {
        s.len() as int
    }
}

/// What `trim` keeps: the part of `s` from its first to its last
/// character that is not white space.
pub proof fn lemma_trim_shape(s: Seq<char>) -> (r: (int, int))
    ensures
        0 <= r.0 <= r.1 <= s.len(),
        trim(s) == s.subrange(r.0, r.1),
        forall|k: int| 0 <= k < r.0 ==> is_space(#[trigger] s[k]),
        forall|k: int| r.1 <= k < s.len() ==> is_space(#[trigger] s[k]),
        r.0 < r.1 ==> !is_space(s[r.0]) && !is_space(s[r.1 - 1]),
        r.0 == r.1 ==> all_spaces(s),
{
    let i = lemma_trim_start_shape(s);
    let t = s.subrange(i, s.len() as int);
    let j = lemma_trim_end_shape(t);
    assert forall|k: int| i + j <= k < s.len() implies is_space(#[trigger] s[k]) by {
        assert(s[k] == t[k - i]);
    }
    (i, i + j)
}

/// What `trim` yields is trimmed.
pub proof fn lemma_trim_is_trimmed(s: Seq<char>)
    ensures
        is_trimmed(trim(s)),
{
    lemma_trim_shape(s);
}

/// White space around a text does not change what it trims to.
pub proof fn lemma_trim_padded(a: Seq<char>, s: Seq<char>, b: Seq<char>)
    requires
        all_spaces(a),
        all_spaces(b),
    ensures
        trim(a + s + b) == trim(s),
{
    let x = a + s + b;
    let r = lemma_trim_shape(s);
    let i = a.len() + r.0;
    lemma_trim_start_skips(x, i);
    let y = x.subrange(i, x.len() as int);
    let n = r.1 - r.0;
    if n > 0 {
        lemma_trim_end_skips(y, n);
    } else {
        lemma_trim_start_skips(y, y.len() as int);
    }
}

/// A trimmed text trims to itself, also with white space around it.
pub proof fn lemma_trim_of_trimmed(a: Seq<char>, s: Seq<char>, b: Seq<char>)
    requires
        all_spaces(a),
        all_spaces(b),
        is_trimmed(s),
    ensures
        trim(a + s + b) == s,
        trim(s) == s,
{
    lemma_trim_padded(a, s, b);
}

/// A part of a text lacks what the text lacks.
pub proof fn lemma_lacks_part(s: Seq<char>, keyword: Seq<char>, from: int, to: int)
    requires
        lacks(s, keyword),
        0 <= from <= to <= s.len(),
    ensures
        lacks(s.subrange(from, to), keyword),
{
    let part = s.subrange(from, to);
    assert forall|i: int| !occurs_at(part, keyword, i) by {
        if occurs_at(part, keyword, i) {
            assert(s.subrange(from + i, from + i + keyword.len()) =~= part.subrange(
                i,
                i + keyword.len(),
            ));
            assert(occurs_at(s, keyword, from + i));
        }
    }
}

/// What a text trims to lacks what the text lacks.
pub proof fn lemma_lacks_trim(s: Seq<char>, keyword: Seq<char>)
    requires
        lacks(s, keyword),
    ensures
        lacks(trim(s), keyword),
{
    let r = lemma_trim_shape(s);
    lemma_lacks_part(s, keyword, r.0, r.1);
}

/// What a text trims to lacks the characters that the text lacks.
pub proof fn lemma_lacks_char_trim(s: Seq<char>, c: char)
    requires
        lacks_char(s, c),
    ensures
        lacks_char(trim(s), c),
{
    let r = lemma_trim_shape(s);
}

/// What stands before the first occurrence of a keyword lacks the
/// keyword.
pub proof fn lemma_before_first_lacks(s: Seq<char>, keyword: Seq<char>, i: int)
    requires
        keyword.len() > 0,
        find(s, keyword) == Some(i),
    ensures
        0 <= i,
        i + keyword.len() <= s.len(),
        lacks(s.subrange(0, i), keyword),
{
    lemma_find_from(s, keyword, 0);
    let head = s.subrange(0, i);
    assert forall|j: int| !occurs_at(head, keyword, j) by {
        if occurs_at(head, keyword, j) {
            assert(s.subrange(j, j + keyword.len()) =~= head.subrange(j, j + keyword.len()));
            assert(occurs_at(s, keyword, j));
        }
    }
}

/// A text in which a keyword is not found lacks it.
pub proof fn lemma_not_found_lacks(s: Seq<char>, keyword: Seq<char>)
    requires
        find(s, keyword) is None,
    ensures
        lacks(s, keyword),
{
    lemma_find_from(s, keyword, 0);
}

/// A text that lacks a keyword does not have it found.
pub proof fn lemma_lacks_not_found(s: Seq<char>, keyword: Seq<char>)
    requires
        lacks(s, keyword),
    ensures
        find(s, keyword) is None,
{
    lemma_find_from(s, keyword, 0);
}

/// No character of `keyword` is a character of `s`.
pub open spec fn disjoint(keyword: Seq<char>, s: Seq<char>) -> bool {
    forall|i: int, j: int|
        0 <= i < keyword.len() && 0 <= j < s.len() ==> #[trigger] keyword[i] != #[trigger] s[j]
}

/// What an occurrence says of each character that it covers.
pub proof fn lemma_occurrence_char(s: Seq<char>, keyword: Seq<char>, i: int, d: int)
    requires
        occurs_at(s, keyword, i),
        0 <= d < keyword.len(),
    ensures
        s[i + d] == keyword[d],
{
}

/// Two texts that lack a keyword, joined by a text that shares no
/// character with it, lack it together.
pub proof fn lemma_lacks_concat(u: Seq<char>, m: Seq<char>, v: Seq<char>, keyword: Seq<char>)
    requires
        lacks(u, keyword),
        lacks(v, keyword),
        m.len() > 0,
        disjoint(keyword, m),
    ensures
        lacks(u + m + v, keyword),
{
    let s = u + m + v;
    let n = keyword.len() as int;
    assert forall|i: int| !occurs_at(s, keyword, i) by {
        if occurs_at(s, keyword, i) {
            if n == 0 {
                assert(u.subrange(0, 0) =~= keyword);
                assert(occurs_at(u, keyword, 0));
            } else if i + n <= u.len() {
                assert(u.subrange(i, i + n) =~= s.subrange(i, i + n));
                assert(occurs_at(u, keyword, i));
            } else if i >= u.len() + m.len() {
                let j = i - u.len() - m.len();
                assert(v.subrange(j, j + n) =~= s.subrange(i, i + n));
                assert(occurs_at(v, keyword, j));
            } else {
                let d = if i >= u.len() {
                    0
                } else {
                    u.len() - i
                };
                lemma_occurrence_char(s, keyword, i, d);
            }
        }
    }
}

/// In a text built as padding, a text that lacks the keyword, padding,
/// the keyword and a rest, where the paddings share no character with the
/// keyword and the second is not empty, the keyword is first found right
/// after the second padding.
pub proof fn lemma_find_padded(
    p: Seq<char>,
    x: Seq<char>,
    q: Seq<char>,
    keyword: Seq<char>,
    w: Seq<char>,
)
    requires
        keyword.len() > 0,
        lacks(x, keyword),
        disjoint(keyword, p),
        disjoint(keyword, q),
        q.len() > 0,
    ensures
        find(p + x + q + keyword + w, keyword) == Some((p.len() + x.len() + q.len()) as int),
{
    let s = p + x + q + keyword + w;
    let at = (p.len() + x.len() + q.len()) as int;
    let n = keyword.len() as int;
    assert(s.subrange(at, at + n) =~= keyword);
    assert forall|i: int| 0 <= i < at implies !occurs_at(s, keyword, i) by {
        if occurs_at(s, keyword, i) {
            if i < p.len() {
                lemma_occurrence_char(s, keyword, i, 0);
            } else if i >= p.len() + x.len() {
                lemma_occurrence_char(s, keyword, i, 0);
            } else if i + n > p.len() + x.len() {
                let d = p.len() + x.len() - i;
                lemma_occurrence_char(s, keyword, i, d);
            } else {
                let j = i - p.len();
                assert(x.subrange(j, j + n) =~= s.subrange(i, i + n));
                assert(occurs_at(x, keyword, j));
            }
        }
    }
    lemma_find_is(s, keyword, at);
}

/// A text with padding before it, where the padding shares no character
/// with the keyword, lacks the keyword if the text does.
pub proof fn lemma_lacks_padded(p: Seq<char>, x: Seq<char>, keyword: Seq<char>)
    requires
        keyword.len() > 0,
        lacks(x, keyword),
        disjoint(keyword, p),
    ensures
        lacks(p + x, keyword),
{
    let s = p + x;
    let n = keyword.len() as int;
    assert forall|i: int| !occurs_at(s, keyword, i) by {
        if occurs_at(s, keyword, i) {
            if i < p.len() {
                lemma_occurrence_char(s, keyword, i, 0);
            } else {
                let j = i - p.len();
                assert(x.subrange(j, j + n) =~= s.subrange(i, i + n));
                assert(occurs_at(x, keyword, j));
            }
        }
    }
}

/// Every piece of a split text is a part of the text and lacks the
/// separator.
pub proof fn lemma_split_piece(s: Seq<char>, c: char, k: int) -> (r: (int, int))
    requires
        0 <= k < split(s, c).len(),
    ensures
        0 <= r.0 <= r.1 <= s.len(),
        split(s, c)[k] == s.subrange(r.0, r.1),
        lacks_char(split(s, c)[k], c),
    decreases s.len(),
{
    lemma_index_of(s, c);
    match index_of(s, c) {
        None => {
            (0, s.len() as int)
        },
        Some(i) => {
            let rest = s.subrange(i + 1, s.len() as int);
            if k == 0 {
                (0, i)
            } else {
                let r = lemma_split_piece(rest, c, k - 1);
                (i + 1 + r.0, i + 1 + r.1)
            }
        },
    }
}

/// Each text trimmed.
pub open spec fn trim_each(parts: Seq<Seq<char>>) -> Seq<Seq<char>> {
    parts.map_values(|p: Seq<char>| trim(p))
}

/// Trimming each text of a list trims its first and each of the others.
pub proof fn lemma_trim_each_cons(head: Seq<char>, rest: Seq<Seq<char>>)
    ensures
        trim_each(seq![head] + rest) == seq![trim(head)] + trim_each(rest),
{
}

/// White space around a text does not change what its pieces trim to.
pub proof fn lemma_split_padded(a: Seq<char>, m: Seq<char>, b: Seq<char>, c: char)
    requires
        all_spaces(a),
        all_spaces(b),
        !is_space(c),
    ensures
        trim_each(split(a + m + b, c)) == trim_each(split(m, c)),
    decreases m.len(),
{
    let s = a + m + b;
    lemma_index_of(m, c);
    match index_of(m, c) {
        None => {
            lemma_index_of_none(s, c);
            lemma_trim_padded(a, m, b);
        },
        Some(i) => {
            lemma_index_of_is(s, c, a.len() + i);
            let head = m.subrange(0, i);
            let tail = m.subrange(i + 1, m.len() as int);
            let none = Seq::<char>::empty();
            assert(s.subrange(0, a.len() + i) =~= a + head + none);
            assert(s.subrange(a.len() + i + 1, s.len() as int) =~= none + tail + b);
            lemma_trim_padded(a, head, none);
            lemma_split_padded(none, tail, b, c);
            let s_head = s.subrange(0, a.len() + i);
            let s_tail = s.subrange(a.len() + i + 1, s.len() as int);
            lemma_trim_each_cons(s_head, split(s_tail, c));
        },
    }
}

/// Trimming a text first does not change what its pieces trim to.
pub proof fn lemma_split_trim(s: Seq<char>, c: char)
    requires
        !is_space(c),
    ensures
        trim_each(split(trim(s), c)) == trim_each(split(s, c)),
{
    let r = lemma_trim_shape(s);
    let a = s.subrange(0, r.0);
    let b = s.subrange(r.1, s.len() as int);
    assert(a + trim(s) + b =~= s);
    lemma_split_padded(a, trim(s), b, c);
}

/// The separator of lists: a comma and a space.
pub open spec fn list_separator() -> Seq<char> {
    seq![',', ' ']
}

/// Pieces without commas, joined by comma and space and split at the
/// commas again, trim to what the pieces trim to; white space around the
/// whole does not matter.
pub proof fn lemma_split_join(a: Seq<char>, parts: Seq<Seq<char>>, b: Seq<char>)
    requires
        parts.len() >= 1,
        forall|k: int| 0 <= k < parts.len() ==> lacks_char(#[trigger] parts[k], ','),
        all_spaces(a),
        all_spaces(b),
    ensures
        trim_each(split(a + join(parts, list_separator()) + b, ',')) == trim_each(parts),
    decreases parts.len(),
{
    let sep = list_separator();
    let s = a + join(parts, sep) + b;
    let p0 = parts[0];
    if parts.len() == 1 {
        lemma_index_of_none(s, ',');
        lemma_trim_padded(a, p0, b);
    } else {
        let rest = parts.drop_first();
        let at = (a.len() + p0.len()) as int;
        lemma_index_of_is(s, ',', at);
        let none = Seq::<char>::empty();
        let space = seq![' '];
        assert(s.subrange(0, at) =~= a + p0 + none);
        assert(s.subrange(at + 1, s.len() as int) =~= space + join(rest, sep) + b);
        lemma_trim_padded(a, p0, none);
        lemma_split_join(space, rest, b);
        let s_head = s.subrange(0, at);
        let s_tail = s.subrange(at + 1, s.len() as int);
        lemma_trim_each_cons(s_head, split(s_tail, ','));
    }
}

/// Trimming a text that begins with a trimmed head leaves the head and
/// takes only white space from the end of what follows it.
pub proof fn lemma_trim_tail(head: Seq<char>, w: Seq<char>) -> (r: (Seq<char>, Seq<char>))
    requires
        head.len() > 0,
        !is_space(head.first()),
        !is_space(head.last()),
    ensures
        trim(head + w) == head + r.0,
        w == r.0 + r.1,
        all_spaces(r.1),
{
    let s = head + w;
    let shape = lemma_trim_shape(s);
    assert(s[head.len() - 1] == head.last());
    let cut = shape.1 - head.len();
    let kept = w.subrange(0, cut);
    let pad = w.subrange(cut, w.len() as int);
    assert forall|k: int| 0 <= k < pad.len() implies is_space(#[trigger] pad[k]) by {
        assert(pad[k] == s[shape.1 + k]);
    }
    (kept, pad)
}

/// White space after a text does not change what it trims to.
pub proof fn lemma_trim_followed(s: Seq<char>, pad: Seq<char>)
    requires
        all_spaces(pad),
    ensures
        trim(s + pad) == trim(s),
{
    let none = Seq::<char>::empty();
    lemma_trim_padded(none, s, pad);
}

} // verus!
