//! Text as sequences of characters: the vocabulary in which the command
//! grammar is stated, with executable counterparts working on `Vec<char>`.

use vstd::prelude::*;
use vstd::std_specs::iter::IteratorSpec;

verus! {

/// `String::push` appends one character to the end of the string.
pub assume_specification[ std::string::String::push ](s: &mut std::string::String, c: char)
    ensures
        final(s)@ == old(s)@.push(c),
;

/// The characters of a string slice, in order.
pub fn to_chars(s: &str) -> (v: Vec<char>)
    ensures
        v@ == s@,
{
    broadcast use vstd::string::group_string_axioms;

    let mut v: Vec<char> = Vec::new();
    let mut rest = s.chars();
    loop
        invariant
            v@ + rest.remaining() == s@,
        decreases s@.len() - v@.len(),
    {
        match rest.next() {
            Some(c) => {
                v.push(c);
            },
            None => {
                return v;
            },
        }
    }
}

/// The string spelled by a vector of characters.
pub fn to_text(v: &Vec<char>) -> (s: String)
    ensures
        s@ == v@,
{
    let mut s: String = String::new();
    let mut i: usize = 0;
    while i < v.len()
        invariant
            i <= v.len(),
            s@ == v@.subrange(0, i as int),
        decreases v.len() - i,
    {
        s.push(v[i]);
        i += 1;
    }
    s
}

/// Characters with the Unicode `White_Space` property.
pub open spec fn is_space(c: char) -> bool {
    let n = c as u32;
    ||| 0x09 <= n <= 0x0d
    ||| n == 0x20
    ||| n == 0x85
    ||| n == 0xa0
    ||| n == 0x1680
    ||| 0x2000 <= n <= 0x200a
    ||| n == 0x2028
    ||| n == 0x2029
    ||| n == 0x202f
    ||| n == 0x205f
    ||| n == 0x3000
}

/// Whether the character has the Unicode `White_Space` property.
pub fn char_is_space(c: char) -> (r: bool)
    ensures
        r == is_space(c),
{
    let n: u32 = c as u32;
    (0x09 <= n && n <= 0x0d) || n == 0x20 || n == 0x85 || n == 0xa0 || n == 0x1680 || (0x2000 <= n
        && n <= 0x200a) || n == 0x2028 || n == 0x2029 || n == 0x202f || n == 0x205f || n == 0x3000
}

/// A copy of the characters at positions `from..to`.
pub fn slice(v: &Vec<char>, from: usize, to: usize) -> (r: Vec<char>)
    requires
        from <= to <= v.len(),
    ensures
        r@ == v@.subrange(from as int, to as int),
{
    let mut r: Vec<char> = Vec::new();
    let mut i: usize = from;
    while i < to
        invariant
            from <= i <= to <= v.len(),
            r@ == v@.subrange(from as int, i as int),
        decreases to - i,
    {
        r.push(v[i]);
        i += 1;
    }
    r
}

/// `s` without its leading white space.
pub open spec fn trim_start(s: Seq<char>) -> Seq<char>
    decreases s.len(),
{
    if s.len() > 0 && is_space(s.first()) {
        trim_start(s.drop_first())
    } else {
        s
    }
}

/// `s` without its trailing white space.
pub open spec fn trim_end(s: Seq<char>) -> Seq<char>
    decreases s.len(),
{
    if s.len() > 0 && is_space(s.last()) {
        trim_end(s.drop_last())
    } else {
        s
    }
}

/// `s` without leading and trailing white space.
pub open spec fn trim(s: Seq<char>) -> Seq<char> {
    trim_end(trim_start(s))
}

/// Dropping a run of leading spaces does not change what `trim_start` yields.
pub proof fn lemma_trim_start_skips(s: Seq<char>, n: int)
    requires
        0 <= n <= s.len(),
        forall|i: int| 0 <= i < n ==> is_space(s[i]),
    ensures
        trim_start(s) == trim_start(s.subrange(n, s.len() as int)),
    decreases n,
{
    if n == 0 {
        assert(s.subrange(0, s.len() as int) =~= s);
    } else {
        let t = s.drop_first();
        lemma_trim_start_skips(t, n - 1);
        assert(t.subrange(n - 1, t.len() as int) =~= s.subrange(n, s.len() as int));
    }
}

/// Dropping a run of trailing spaces does not change what `trim_end` yields.
pub proof fn lemma_trim_end_skips(s: Seq<char>, n: int)
    requires
        0 <= n <= s.len(),
        forall|i: int| n <= i < s.len() ==> is_space(s[i]),
    ensures
        trim_end(s) == trim_end(s.subrange(0, n)),
    decreases s.len() - n,
{
    if n == s.len() {
        assert(s.subrange(0, n) =~= s);
    } else {
        let t = s.drop_last();
        lemma_trim_end_skips(t, n);
        assert(t.subrange(0, n) =~= s.subrange(0, n));
    }
}

/// The text between the first and the last character of `v` that is not
/// white space; empty where there is none.
pub fn trimmed(v: &Vec<char>) -> (r: Vec<char>)
    ensures
        r@ == trim(v@),
{
    let n: usize = v.len();
    let mut a: usize = 0;
    while a < n && char_is_space(v[a])
        invariant
            a <= n == v.len(),
            forall|i: int| 0 <= i < a ==> is_space(v@[i]),
        decreases n - a,
    {
        a += 1;
    }
    let mut b: usize = n;
    while b > a && char_is_space(v[b - 1])
        invariant
            a <= b <= n == v.len(),
            forall|i: int| b <= i < n ==> is_space(v@[i]),
        decreases b,
    {
        b -= 1;
    }
    proof {
        let rest = v@.subrange(a as int, n as int);
        lemma_trim_start_skips(v@, a as int);
        lemma_trim_end_skips(rest, b - a);
    }
    slice(v, a, b)
}

/// `needle` stands in `hay` at position `i`.
pub open spec fn occurs_at(hay: Seq<char>, needle: Seq<char>, i: int) -> bool {
    &&& 0 <= i
    &&& i + needle.len() <= hay.len()
    &&& hay.subrange(i, i + needle.len()) == needle
}

/// The first position at or after `from` at which `needle` stands in `hay`.
pub open spec fn find_from(hay: Seq<char>, needle: Seq<char>, from: int) -> Option<int>
    decreases hay.len() - from + 1,
{
    if from < 0 || from + needle.len() > hay.len() {
        None
    } else if occurs_at(hay, needle, from) {
        Some(from)
    } else {
        find_from(hay, needle, from + 1)
    }
}

/// The first position at which `needle` stands in `hay`.
pub open spec fn find(hay: Seq<char>, needle: Seq<char>) -> Option<int> {
    find_from(hay, needle, 0)
}

/// `find_from` yields the least occurrence at or after `from`, and `None`
/// exactly when there is none.
pub proof fn lemma_find_from(hay: Seq<char>, needle: Seq<char>, from: int)
    requires
        0 <= from,
    ensures
        match find_from(hay, needle, from) {
            Some(i) => from <= i && occurs_at(hay, needle, i) && forall|j: int|
                from <= j < i ==> !occurs_at(hay, needle, j),
            None => forall|j: int| from <= j ==> !occurs_at(hay, needle, j),
        },
    decreases hay.len() - from + 1,
{
    if from + needle.len() <= hay.len() && !occurs_at(hay, needle, from) {
        lemma_find_from(hay, needle, from + 1);
    }
}

/// A position that holds the first occurrence is what `find` yields.
pub proof fn lemma_find_is(hay: Seq<char>, needle: Seq<char>, i: int)
    requires
        occurs_at(hay, needle, i),
        forall|j: int| 0 <= j < i ==> !occurs_at(hay, needle, j),
    ensures
        find(hay, needle) == Some(i),
{
    lemma_find_from(hay, needle, 0);
}

/// `s` begins with `prefix`.
pub open spec fn starts_with(s: Seq<char>, prefix: Seq<char>) -> bool {
    occurs_at(s, prefix, 0)
}

/// Whether `needle` stands in `hay` at position `i`.
pub fn matches_at(hay: &Vec<char>, needle: &Vec<char>, i: usize) -> (r: bool)
    ensures
        r == occurs_at(hay@, needle@, i as int),
{
    if needle.len() > hay.len() || i > hay.len() - needle.len() {
        return false;
    }
    let mut k: usize = 0;
    while k < needle.len()
        invariant
            k <= needle.len(),
            i + needle.len() <= hay.len(),
            forall|j: int| 0 <= j < k ==> hay@[i + j] == needle@[j],
        decreases needle.len() - k,
    {
        if hay[i + k] != needle[k] {
            return false;
        }
        k += 1;
    }
    assert(hay@.subrange(i as int, i + needle.len()) =~= needle@);
    true
}

/// The first position at which `needle` stands in `hay`.
pub fn first_match(hay: &Vec<char>, needle: &Vec<char>) -> (r: Option<usize>)
    ensures
        match r {
            Some(i) => find(hay@, needle@) == Some(i as int) && i + needle@.len() <= hay@.len(),
            None => find(hay@, needle@) is None,
        },
{
    if needle.len() > hay.len() {
        return None;
    }
    let last: usize = hay.len() - needle.len();
    let mut i: usize = 0;
    loop
        invariant
            i <= last == hay.len() - needle.len(),
            find(hay@, needle@) == find_from(hay@, needle@, i as int),
        decreases last - i,
    {
        if matches_at(hay, needle, i) {
            return Some(i);
        }
        if i == last {
            assert(find_from(hay@, needle@, i + 1) is None);
            return None;
        }
        i += 1;
    }
}

/// Whether `s` begins with `prefix`.
pub fn has_prefix(s: &Vec<char>, prefix: &Vec<char>) -> (r: bool)
    ensures
        r == starts_with(s@, prefix@),
{
    matches_at(s, prefix, 0)
}

/// The first position of the character `c` in `s`.
pub open spec fn index_of(s: Seq<char>, c: char) -> Option<int>
    decreases s.len(),
{
    if s.len() == 0 {
        None
    } else if s.first() == c {
        Some(0)
    } else {
        match index_of(s.drop_first(), c) {
            Some(i) => Some(i + 1),
            None => None,
        }
    }
}

/// `index_of` yields the least position that holds `c`, and `None` exactly
/// when no position does.
pub proof fn lemma_index_of(s: Seq<char>, c: char)
    ensures
        match index_of(s, c) {
            Some(i) => 0 <= i < s.len() && s[i] == c && forall|j: int| 0 <= j < i ==> s[j] != c,
            None => forall|j: int| 0 <= j < s.len() ==> s[j] != c,
        },
    decreases s.len(),
{
    if s.len() > 0 && s.first() != c {
        let t = s.drop_first();
        lemma_index_of(t, c);
        match index_of(t, c) {
            Some(i) => {
                assert forall|j: int| 0 <= j < i + 1 implies s[j] != c by {
                    if j > 0 {
                        assert(s[j] == t[j - 1]);
                    }
                }
            },
            None => {
                assert forall|j: int| 0 <= j < s.len() implies s[j] != c by {
                    if j > 0 {
                        assert(s[j] == t[j - 1]);
                    }
                }
            },
        }
    }
}

/// A position that holds the first `c` is what `index_of` yields.
pub proof fn lemma_index_of_is(s: Seq<char>, c: char, i: int)
    requires
        0 <= i < s.len(),
        s[i] == c,
        forall|j: int| 0 <= j < i ==> s[j] != c,
    ensures
        index_of(s, c) == Some(i),
{
    lemma_index_of(s, c);
}

/// No position of `s` holds `c`.
pub proof fn lemma_index_of_none(s: Seq<char>, c: char)
    requires
        forall|j: int| 0 <= j < s.len() ==> s[j] != c,
    ensures
        index_of(s, c) is None,
{
    lemma_index_of(s, c);
}

/// The pieces of `s` between occurrences of `sep`: one more piece than
/// there are separators, so never empty.
pub open spec fn split(s: Seq<char>, sep: char) -> Seq<Seq<char>>
    decreases s.len(),
{
    match index_of(s, sep) {
        None => seq![s],
        Some(i) => if 0 <= i < s.len() {
            seq![s.subrange(0, i)] + split(s.subrange(i + 1, s.len() as int), sep)
        } else {
            seq![s]
        },
    }
}

/// The views of a vector of character vectors.
pub open spec fn views(parts: Seq<Vec<char>>) -> Seq<Seq<char>> {
    parts.map_values(|p: Vec<char>| p@)
}

/// The pieces of `s` between occurrences of `sep`.
pub fn split_at_char(s: &Vec<char>, sep: char) -> (parts: Vec<Vec<char>>)
    ensures
        views(parts@) == split(s@, sep),
{
    let n: usize = s.len();
    let mut parts: Vec<Vec<char>> = Vec::new();
    let mut start: usize = 0;
    let mut i: usize = 0;
    proof {
        assert(s@.subrange(0, n as int) =~= s@);
    }
    while i < n
        invariant
            start <= i <= n == s.len(),
            forall|j: int| start <= j < i ==> s@[j] != sep,
            split(s@, sep) == views(parts@) + split(s@.subrange(start as int, n as int), sep),
        decreases n - i,
    {
        if s[i] == sep {
            let piece = slice(s, start, i);
            proof {
                let rest = s@.subrange(start as int, n as int);
                lemma_index_of_is(rest, sep, i - start);
                assert(rest.subrange(0, i - start) =~= piece@);
                assert(rest.subrange(i - start + 1, rest.len() as int) =~= s@.subrange(
                    i + 1,
                    n as int,
                ));
            }
            parts.push(piece);
            start = i + 1;
        }
        i += 1;
    }
    let piece = slice(s, start, n);
    proof {
        let rest = s@.subrange(start as int, n as int);
        lemma_index_of_none(rest, sep);
    }
    parts.push(piece);
    parts
}

/// The length of the run of characters other than white space with which
/// `s` begins.
pub open spec fn word_len(s: Seq<char>) -> int
    decreases s.len(),
{
    if s.len() > 0 && !is_space(s.first()) {
        1 + word_len(s.drop_first())
    } else {
        0
    }
}

/// The maximal runs of characters other than white space in `s`, in order.
pub open spec fn words(s: Seq<char>) -> Seq<Seq<char>>
    decreases s.len(),
{
    if s.len() == 0 {
        seq![]
    } else if is_space(s.first()) {
        words(s.drop_first())
    } else {
        let n = word_len(s);
        if 0 < n <= s.len() {
            seq![s.subrange(0, n)] + words(s.subrange(n, s.len() as int))
        } else {
            seq![]
        }
    }
}

/// A run of `n` characters other than white space, ended by white space or
/// by the end of the text, is the leading word.
pub proof fn lemma_word_len(s: Seq<char>, n: int)
    requires
        0 <= n <= s.len(),
        forall|i: int| 0 <= i < n ==> !is_space(s[i]),
        n < s.len() ==> is_space(s[n]),
    ensures
        word_len(s) == n,
    decreases n,
{
    if n > 0 {
        let t = s.drop_first();
        lemma_word_len(t, n - 1);
    }
}

/// The maximal runs of characters other than white space in `s`.
pub fn split_words(s: &Vec<char>) -> (parts: Vec<Vec<char>>)
    ensures
        views(parts@) == words(s@),
{
    let n: usize = s.len();
    let mut parts: Vec<Vec<char>> = Vec::new();
    let mut i: usize = 0;
    proof {
        assert(s@.subrange(0, n as int) =~= s@);
    }
    while i < n
        invariant
            i <= n == s.len(),
            words(s@) == views(parts@) + words(s@.subrange(i as int, n as int)),
        decreases n - i,
    {
        if char_is_space(s[i]) {
            proof {
                let rest = s@.subrange(i as int, n as int);
                assert(rest.drop_first() =~= s@.subrange(i + 1, n as int));
            }
            i += 1;
        } else {
            let start: usize = i;
            while i < n && !char_is_space(s[i])
                invariant
                    start <= i <= n == s.len(),
                    forall|j: int| start <= j < i ==> !is_space(s@[j]),
                decreases n - i,
            {
                i += 1;
            }
            let piece = slice(s, start, i);
            proof {
                let rest = s@.subrange(start as int, n as int);
                lemma_word_len(rest, i - start);
                assert(rest.subrange(0, i - start) =~= piece@);
                assert(rest.subrange(i - start, rest.len() as int) =~= s@.subrange(
                    i as int,
                    n as int,
                ));
            }
            parts.push(piece);
        }
    }
    parts
}

/// The pieces set one after another with `sep` between neighbours.
pub open spec fn join(parts: Seq<Seq<char>>, sep: Seq<char>) -> Seq<char>
    decreases parts.len(),
{
    if parts.len() == 0 {
        seq![]
    } else if parts.len() == 1 {
        parts[0]
    } else {
        parts[0] + sep + join(parts.drop_first(), sep)
    }
}

/// Joining one more piece appends the separator and the piece.
pub proof fn lemma_join_push(parts: Seq<Seq<char>>, sep: Seq<char>, piece: Seq<char>)
    ensures
        join(parts.push(piece), sep) == if parts.len() == 0 {
            piece
        } else {
            join(parts, sep) + sep + piece
        },
    decreases parts.len(),
{
    let all = parts.push(piece);
    if parts.len() == 1 {
        assert(join(all.drop_first(), sep) == piece);
    } else if parts.len() > 1 {
        lemma_join_push(parts.drop_first(), sep, piece);
        assert(all.drop_first() =~= parts.drop_first().push(piece));
        assert(parts[0] + sep + (join(parts.drop_first(), sep) + sep + piece) =~= (parts[0] + sep
            + join(parts.drop_first(), sep)) + sep + piece);
    }
}

/// Appends the characters of `tail` to `v`.
pub fn append(v: &mut Vec<char>, tail: &Vec<char>)
    ensures
        final(v)@ == old(v)@ + tail@,
{
    let mut i: usize = 0;
    while i < tail.len()
        invariant
            i <= tail.len(),
            v@ == old(v)@ + tail@.subrange(0, i as int),
        decreases tail.len() - i,
    {
        v.push(tail[i]);
        i += 1;
    }
}

/// The pieces set one after another with `sep` between neighbours.
pub fn joined(parts: &Vec<Vec<char>>, sep: &Vec<char>) -> (r: Vec<char>)
    ensures
        r@ == join(views(parts@), sep@),
{
    let mut r: Vec<char> = Vec::new();
    let mut i: usize = 0;
    while i < parts.len()
        invariant
            i <= parts.len(),
            r@ == join(views(parts@).subrange(0, i as int), sep@),
        decreases parts.len() - i,
    {
        if i > 0 {
            append(&mut r, sep);
        }
        append(&mut r, &parts[i]);
        proof {
            let done = views(parts@).subrange(0, i as int);
            lemma_join_push(done, sep@, parts@[i as int]@);
            assert(done.push(parts@[i as int]@) =~= views(parts@).subrange(0, i + 1));
        }
        i += 1;
    }
    assert(views(parts@).subrange(0, parts.len() as int) =~= views(parts@));
    r
}

/// Whether two vectors spell the same text.
pub fn same_text(a: &Vec<char>, b: &Vec<char>) -> (r: bool)
    ensures
        r == (a@ == b@),
{
    if a.len() != b.len() {
        return false;
    }
    let r = matches_at(a, b, 0);
    assert(a@.subrange(0, a.len() as int) =~= a@);
    r
}

/// The upper-case form of an ASCII lower-case letter; any other character
/// unchanged.
pub open spec fn upper_char(c: char) -> char {
    if 'a' <= c <= 'z' {
        ((c as u8) - 32) as char
    } else {
        c
    }
}

/// `s` with its ASCII lower-case letters replaced by upper-case ones.
pub open spec fn ascii_upper(s: Seq<char>) -> Seq<char> {
    s.map_values(|c: char| upper_char(c))
}

/// The upper-case form of an ASCII lower-case letter; any other character
/// unchanged.
pub fn char_to_upper(c: char) -> (r: char)
    ensures
        r == upper_char(c),
{
    if 'a' <= c && c <= 'z' {
        ((c as u8) - 32) as char
    } else {
        c
    }
}

/// `s` with its ASCII lower-case letters replaced by upper-case ones.
pub fn to_ascii_upper(s: &Vec<char>) -> (r: Vec<char>)
    ensures
        r@ == ascii_upper(s@),
{
    let mut r: Vec<char> = Vec::new();
    let mut i: usize = 0;
    while i < s.len()
        invariant
            i <= s.len(),
            r@ == ascii_upper(s@.subrange(0, i as int)),
        decreases s.len() - i,
    {
        r.push(char_to_upper(s[i]));
        i += 1;
    }
    r
}

/// The order of texts: character by character by code point, a proper
/// prefix before its extensions.
pub open spec fn text_lt(a: Seq<char>, b: Seq<char>) -> bool
    decreases a.len(),
{
    if b.len() == 0 {
        false
    } else if a.len() == 0 {
        true
    } else if a.first() != b.first() {
        a.first() < b.first()
    } else {
        text_lt(a.drop_first(), b.drop_first())
    }
}

/// No text comes before itself.
pub proof fn lemma_text_lt_irreflexive(a: Seq<char>)
    ensures
        !text_lt(a, a),
    decreases a.len(),
{
    if a.len() > 0 {
        lemma_text_lt_irreflexive(a.drop_first());
    }
}

/// The order of texts is transitive.
pub proof fn lemma_text_lt_transitive(a: Seq<char>, b: Seq<char>, c: Seq<char>)
    requires
        text_lt(a, b),
        text_lt(b, c),
    ensures
        text_lt(a, c),
    decreases a.len(),
{
    if a.len() > 0 && a.first() == b.first() && b.first() == c.first() {
        lemma_text_lt_transitive(a.drop_first(), b.drop_first(), c.drop_first());
    }
}

/// Of two different texts one comes before the other.
pub proof fn lemma_text_lt_total(a: Seq<char>, b: Seq<char>)
    ensures
        text_lt(a, b) || text_lt(b, a) || a == b,
    decreases a.len(),
{
    if a.len() > 0 && b.len() > 0 && a.first() == b.first() {
        lemma_text_lt_total(a.drop_first(), b.drop_first());
        if a.drop_first() == b.drop_first() {
            assert(a =~= seq![a.first()] + a.drop_first());
        }
    }
}

/// Whether `a` comes before `b` in the order of texts.
pub fn comes_before(a: &Vec<char>, b: &Vec<char>) -> (r: bool)
    ensures
        r == text_lt(a@, b@),
{
    let mut i: usize = 0;
    assert(a@.subrange(0, a.len() as int) =~= a@);
    assert(b@.subrange(0, b.len() as int) =~= b@);
    while i < a.len() && i < b.len()
        invariant
            i <= a.len(),
            i <= b.len(),
            text_lt(a@, b@) == text_lt(
                a@.subrange(i as int, a.len() as int),
                b@.subrange(i as int, b.len() as int),
            ),
        decreases a.len() - i,
    {
        if a[i] != b[i] {
            return a[i] < b[i];
        }
        proof {
            let ra = a@.subrange(i as int, a.len() as int);
            let rb = b@.subrange(i as int, b.len() as int);
            assert(ra.drop_first() =~= a@.subrange(i + 1, a.len() as int));
            assert(rb.drop_first() =~= b@.subrange(i + 1, b.len() as int));
        }
        i += 1;
    }
    i < b.len()
}

/// What `str::to_uppercase` makes of a text: its upper-case equivalent by
/// the Unicode case mappings.
pub uninterp spec fn unicode_upper(s: Seq<char>) -> Seq<char>;

/// `str::to_uppercase`: the result is a function of the characters of `s`
/// alone.
#[verifier::external_body]
pub(crate) fn to_upper(s: &str) -> (r: String)
    ensures
        r@ == unicode_upper(s@),
{
    s.to_uppercase()
}

/// What follows `prefix` in `s`, where `s` begins with it.
pub open spec fn strip_prefix(s: Seq<char>, prefix: Seq<char>) -> Option<Seq<char>> {
    if starts_with(s, prefix) {
        Some(s.subrange(prefix.len() as int, s.len() as int))
    } else {
        None
    }
}

/// What stands before and what stands after the first occurrence of
/// `keyword` in `s`.
pub open spec fn cut(s: Seq<char>, keyword: Seq<char>) -> Option<(Seq<char>, Seq<char>)> {
    match find(s, keyword) {
        Some(i) => if 0 <= i && i + keyword.len() <= s.len() {
            Some((s.subrange(0, i), s.subrange(i + keyword.len(), s.len() as int)))
        } else {
            None
        },
        None => None,
    }
}

/// What follows `prefix` in `s`, where `s` begins with it.
pub fn without_prefix(s: &Vec<char>, prefix: &str) -> (r: Option<Vec<char>>)
    ensures
        match r {
            Some(rest) => strip_prefix(s@, prefix@) == Some(rest@),
            None => strip_prefix(s@, prefix@) is None,
        },
{
    let p: Vec<char> = to_chars(prefix);
    if has_prefix(s, &p) {
        Some(slice(s, p.len(), s.len()))
    } else {
        None
    }
}

/// What stands before and what stands after the first occurrence of
/// `keyword` in `s`.
pub fn cut_at(s: &Vec<char>, keyword: &str) -> (r: Option<(Vec<char>, Vec<char>)>)
    ensures
        match r {
            Some((before, after)) => cut(s@, keyword@) == Some((before@, after@)),
            None => cut(s@, keyword@) is None,
        },
{
    let k: Vec<char> = to_chars(keyword);
    match first_match(s, &k) {
        Some(i) => {
            let n: usize = s.len();
            Some((slice(s, 0, i), slice(s, i + k.len(), n)))
        },
        None => None,
    }
}

} // verus!
