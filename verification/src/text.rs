//! Text as sequences of characters: ordering, trimming, searching and building strings.

use vstd::prelude::*;
use vstd::utf8::is_ascii_chars;

verus! {

/// `String::push` appends the given character to the end of the string.
pub assume_specification[ String::push ](s: &mut String, c: char)
    ensures
        final(s)@ == old(s)@.push(c),
;

/// `String::pop` removes the last character and returns it; an empty string stays as it is and
/// gives `None`.
pub assume_specification[ String::pop ](s: &mut String) -> (r: Option<char>)
    ensures
        old(s)@.len() == 0 ==> r is None && final(s)@ == old(s)@,
        old(s)@.len() > 0 ==> r == Some(old(s)@.last()) && final(s)@ == old(s)@.drop_last(),
;

/// The lowercase equivalent of a text, as `str::to_lowercase` gives it.
pub uninterp spec fn lowercase(s: Seq<char>) -> Seq<char>;

/// The lowercase equivalent of an ASCII character.
pub open spec fn ascii_lower(c: char) -> char {
    if 'A' as int <= c as int <= 'Z' as int {
        (c as int + 32) as char
    } else {
        c
    }
}

/// A text whose ASCII letters have lost their case.
pub open spec fn ascii_lowered(s: Seq<char>) -> Seq<char> {
    s.map_values(|c: char| ascii_lower(c))
}

/// `str::to_lowercase`: the result is a function of the characters alone, and a text of ASCII
/// characters only has its letters from `A` to `Z` replaced. What the Unicode tables say of other
/// characters is not stated.
#[verifier::external_body]
pub(crate) fn to_lowercase(s: &str) -> (r: String)
    ensures
        r@ == lowercase(s@),
        is_ascii_chars(s@) ==> r@ == ascii_lowered(s@),
{
    s.to_lowercase()
}

/// The characters of a string, in order.
pub(crate) fn chars_of(s: &str) -> (v: Vec<char>)
    ensures
        v@ == s@,
{
    let mut v: Vec<char> = Vec::new();
    for c in it: s.chars()
        invariant
            v@ == it.seq().take(it.index() as int),
            it.seq() == s@,
    {
        v.push(c);
    }
    v
}

/// The string made of the characters from `from` up to `to`.
pub(crate) fn text_of(chars: &Vec<char>, from: usize, to: usize) -> (r: String)
    requires
        from <= to <= chars@.len(),
    ensures
        r@ == chars@.subrange(from as int, to as int),
{
    let mut r = String::new();
    for k in from..to
        invariant
            from <= to <= chars@.len(),
            r@ == chars@.subrange(from as int, k as int),
    {
        r.push(chars[k]);
    }
    r
}

/// Whether two texts hold the same characters.
pub(crate) fn same_text(a: &str, b: &str) -> (r: bool)
    ensures
        r == (a@ == b@),
{
    let x = chars_of(a);
    let y = chars_of(b);
    if x.len() != y.len() {
        return false;
    }
    for k in 0..x.len()
        invariant
            x@ == a@,
            y@ == b@,
            x@.len() == y@.len(),
            forall|i: int| 0 <= i < k ==> x@[i] == y@[i],
    {
        if x[k] != y[k] {
            return false;
        }
    }
    assert(a@ =~= b@);
    true
}

/// Lexicographic order by code point, which is how `str` orders text.
pub open spec fn text_le(a: Seq<char>, b: Seq<char>) -> bool
    decreases a.len(),
{
    if a.len() == 0 {
        true
    } else if b.len() == 0 {
        false
    } else if a[0] != b[0] {
        (a[0] as int) < (b[0] as int)
    } else {
        text_le(a.skip(1), b.skip(1))
    }
}

/// Strictly before in lexicographic order.
pub open spec fn text_lt(a: Seq<char>, b: Seq<char>) -> bool {
    text_le(a, b) && a != b
}

/// Any two texts are comparable.
pub proof fn text_le_total(a: Seq<char>, b: Seq<char>)
    ensures
        text_le(a, b) || text_le(b, a),
    decreases a.len(),
{
    if a.len() > 0 && b.len() > 0 && a[0] == b[0] {
        text_le_total(a.skip(1), b.skip(1));
    }
}

/// Texts that come before each other are equal.
pub proof fn text_le_antisymmetric(a: Seq<char>, b: Seq<char>)
    requires
        text_le(a, b),
        text_le(b, a),
    ensures
        a == b,
    decreases a.len(),
{
    if a.len() > 0 && b.len() > 0 {
        text_le_antisymmetric(a.skip(1), b.skip(1));
        assert(a =~= seq![a[0]] + a.skip(1));
        assert(b =~= seq![b[0]] + b.skip(1));
    } else {
        assert(a =~= b);
    }
}

/// The order of texts is transitive.
pub proof fn text_le_transitive(a: Seq<char>, b: Seq<char>, c: Seq<char>)
    requires
        text_le(a, b),
        text_le(b, c),
    ensures
        text_le(a, c),
    decreases a.len(),
{
    if a.len() > 0 && a[0] == b[0] && b[0] == c[0] {
        text_le_transitive(a.skip(1), b.skip(1), c.skip(1));
    }
}

/// A common prefix does not change how two texts compare.
proof fn lemma_text_le_same_prefix(a: Seq<char>, b: Seq<char>, k: int)
    requires
        0 <= k <= a.len(),
        k <= b.len(),
        a.take(k) == b.take(k),
    ensures
        text_le(a, b) == text_le(a.skip(k), b.skip(k)),
    decreases k,
{
    if k == 0 {
        assert(a.skip(0) =~= a);
        assert(b.skip(0) =~= b);
    } else {
        assert(a[0] == a.take(k)[0] && b[0] == b.take(k)[0]);
        let (x, y) = (a.skip(1), b.skip(1));
        assert(x.take(k - 1) =~= a.take(k).skip(1));
        assert(y.take(k - 1) =~= b.take(k).skip(1));
        lemma_text_le_same_prefix(x, y, k - 1);
        assert(x.skip(k - 1) =~= a.skip(k));
        assert(y.skip(k - 1) =~= b.skip(k));
    }
}

/// Whether `a` comes before `b` lexicographically, or is the same text.
pub(crate) fn at_most(a: &str, b: &str) -> (r: bool)
    ensures
        r == text_le(a@, b@),
{
    let x = chars_of(a);
    let y = chars_of(b);
    let mut k: usize = 0;
    while k < x.len() && k < y.len()
        invariant
            x@ == a@,
            y@ == b@,
            k <= x@.len(),
            k <= y@.len(),
            a@.take(k as int) == b@.take(k as int),
        decreases x.len() - k,
    {
        if x[k] != y[k] {
            proof {
                lemma_text_le_same_prefix(a@, b@, k as int);
                assert(a@.skip(k as int)[0] == a@[k as int]);
                assert(b@.skip(k as int)[0] == b@[k as int]);
            }
            return x[k] < y[k];
        }
        k = k + 1;
        proof {
            assert(a@.take(k as int) =~= a@.take(k - 1).push(a@[k - 1]));
            assert(b@.take(k as int) =~= b@.take(k - 1).push(b@[k - 1]));
        }
    }
    proof {
        lemma_text_le_same_prefix(a@, b@, k as int);
    }
    k == x.len()
}

/// The characters with the Unicode property White_Space.
pub open spec fn is_space(c: char) -> bool {
    let u = c as int;
    ||| 0x09 <= u <= 0x0d
    ||| u == 0x20
    ||| u == 0x85
    ||| u == 0xa0
    ||| u == 0x1680
    ||| 0x2000 <= u <= 0x200a
    ||| u == 0x2028
    ||| u == 0x2029
    ||| u == 0x202f
    ||| u == 0x205f
    ||| u == 0x3000
}

/// Whether a character is white space.
pub(crate) fn is_whitespace(c: char) -> (r: bool)
    ensures
        r == is_space(c),
{
    let u: u32 = c as u32;
    (0x09 <= u && u <= 0x0d) || u == 0x20 || u == 0x85 || u == 0xa0 || u == 0x1680 || (0x2000 <= u
        && u <= 0x200a) || u == 0x2028 || u == 0x2029 || u == 0x202f || u == 0x205f || u == 0x3000
}

/// `s` without its leading white space.
pub open spec fn trim_start(s: Seq<char>) -> Seq<char>
    decreases s.len(),
{
    if s.len() > 0 && is_space(s[0]) {
        trim_start(s.skip(1))
    } else {
        s
    }
}

/// `s` without its trailing white space.
pub open spec fn trim_end(s: Seq<char>) -> Seq<char>
    decreases s.len(),
{
    if s.len() > 0 && is_space(s.last()) {
        trim_end(s.drop_last())
    } else {
        s
    }
}

/// `s` without white space at either end.
pub open spec fn trimmed(s: Seq<char>) -> Seq<char> {
    trim_end(trim_start(s))
}

/// Removes the white space at both ends of the part of `chars` between `from` and `to`.
pub(crate) fn trim_range(chars: &Vec<char>, from: usize, to: usize) -> (r: String)
    requires
        from <= to <= chars@.len(),
    ensures
        r@ == trimmed(chars@.subrange(from as int, to as int)),
{
    let ghost whole = chars@.subrange(from as int, to as int);
    let mut lo: usize = from;
    while lo < to && is_whitespace(chars[lo])
        invariant
            from <= lo <= to <= chars@.len(),
            whole == chars@.subrange(from as int, to as int),
            trim_start(whole) == trim_start(chars@.subrange(lo as int, to as int)),
        decreases to - lo,
    {
        proof {
            let rest = chars@.subrange(lo as int, to as int);
            assert(rest.skip(1) =~= chars@.subrange(lo + 1, to as int));
        }
        lo = lo + 1;
    }
    let ghost middle = chars@.subrange(lo as int, to as int);
    assert(trim_start(whole) == middle);
    let mut hi: usize = to;
    while lo < hi && is_whitespace(chars[hi - 1])
        invariant
            lo <= hi <= to <= chars@.len(),
            trim_end(middle) == trim_end(chars@.subrange(lo as int, hi as int)),
        decreases hi,
    {
        proof {
            let rest = chars@.subrange(lo as int, hi as int);
            assert(rest.drop_last() =~= chars@.subrange(lo as int, hi - 1));
        }
        hi = hi - 1;
    }
    text_of(chars, lo, hi)
}

/// Removes the white space at both ends of a text.
pub(crate) fn trim(s: &str) -> (r: String)
    ensures
        r@ == trimmed(s@),
{
    let chars = chars_of(s);
    proof {
        assert(chars@.subrange(0, chars@.len() as int) =~= s@);
    }
    trim_range(&chars, 0, chars.len())
}

/// How many characters come before the first white space; all of them if there is none.
pub open spec fn word_len(s: Seq<char>) -> nat
    decreases s.len(),
{
    if s.len() == 0 || is_space(s[0]) {
        0
    } else {
        1 + word_len(s.skip(1))
    }
}

/// The text before the first white space.
pub open spec fn first_word(s: Seq<char>) -> Seq<char> {
    s.take(word_len(s) as int)
}

/// The text after the first white space, without white space at its ends; empty if there is no
/// white space.
pub open spec fn after_word(s: Seq<char>) -> Seq<char> {
    if word_len(s) < s.len() {
        trimmed(s.skip(word_len(s) as int + 1))
    } else {
        Seq::empty()
    }
}

/// The first word ends at a white space or at the end, and holds none.
pub proof fn word_len_is_first_space(s: Seq<char>)
    ensures
        word_len(s) <= s.len(),
        word_len(s) < s.len() ==> is_space(s[word_len(s) as int]),
        forall|i: int| 0 <= i < word_len(s) ==> !is_space(#[trigger] s[i]),
    decreases s.len(),
{
    if s.len() > 0 && !is_space(s[0]) {
        let t = s.skip(1);
        word_len_is_first_space(t);
        assert forall|i: int| 0 <= i < word_len(s) implies !is_space(#[trigger] s[i]) by {
            if i > 0 {
                assert(s[i] == t[i - 1]);
            }
        }
    }
}

proof fn lemma_word_len_unique(s: Seq<char>, k: int)
    requires
        0 <= k <= s.len(),
        k < s.len() ==> is_space(s[k]),
        forall|i: int| 0 <= i < k ==> !is_space(#[trigger] s[i]),
    ensures
        word_len(s) == k,
{
    word_len_is_first_space(s);
    if word_len(s) < k {
        assert(is_space(s[word_len(s) as int]));
    }
}

/// Splits a text at its first white space into the word before it and the trimmed rest.
pub(crate) fn split_word(s: &str) -> (r: (String, String))
    ensures
        r.0@ == first_word(s@),
        r.1@ == after_word(s@),
{
    let chars = chars_of(s);
    let mut k: usize = 0;
    while k < chars.len() && !is_whitespace(chars[k])
        invariant
            k <= chars@.len(),
            forall|i: int| 0 <= i < k ==> !is_space(#[trigger] chars@[i]),
        decreases chars.len() - k,
    {
        k = k + 1;
    }
    proof {
        lemma_word_len_unique(chars@, k as int);
        assert(chars@.subrange(0, k as int) =~= first_word(s@));
    }
    let word = text_of(&chars, 0, k);
    if k < chars.len() {
        proof {
            assert(chars@.subrange(k + 1, chars@.len() as int) =~= s@.skip(k + 1));
        }
        (word, trim_range(&chars, k + 1, chars.len()))
    } else {
        (word, String::new())
    }
}

/// Whether two characters are equal once ASCII letters lose their case.
pub open spec fn same_letter(a: char, b: char) -> bool {
    ||| a == b
    ||| 'A' as int <= a as int <= 'Z' as int && b as int == a as int + 32
    ||| 'A' as int <= b as int <= 'Z' as int && a as int == b as int + 32
}

/// Whether two texts are equal once ASCII letters lose their case.
pub open spec fn same_ignoring_ascii_case(a: Seq<char>, b: Seq<char>) -> bool {
    &&& a.len() == b.len()
    &&& forall|i: int| 0 <= i < a.len() ==> same_letter(#[trigger] a[i], b[i])
}

/// Texts that are equal once ASCII letters lose their case have one lowercase form.
pub(crate) proof fn lemma_ascii_lowered(a: Seq<char>, b: Seq<char>)
    requires
        same_ignoring_ascii_case(a, b),
    ensures
        ascii_lowered(a) == ascii_lowered(b),
{
    assert forall|i: int| 0 <= i < a.len() implies ascii_lower(#[trigger] a[i]) == ascii_lower(
        b[i],
    ) by {
        assert(same_letter(a[i], b[i]));
    }
    assert(ascii_lowered(a) =~= ascii_lowered(b));
}

fn letters_match(a: char, b: char) -> (r: bool)
    ensures
        r == same_letter(a, b),
{
    let x: u32 = a as u32;
    let y: u32 = b as u32;
    x == y || (65 <= x && x <= 90 && y == x + 32) || (65 <= y && y <= 90 && x == y + 32)
}

/// Compares two texts, ignoring the case of ASCII letters.
pub(crate) fn equal_ignoring_ascii_case(a: &str, b: &str) -> (r: bool)
    ensures
        r == same_ignoring_ascii_case(a@, b@),
{
    let x = chars_of(a);
    let y = chars_of(b);
    if x.len() != y.len() {
        return false;
    }
    for k in 0..x.len()
        invariant
            x@ == a@,
            y@ == b@,
            x@.len() == y@.len(),
            forall|i: int| 0 <= i < k ==> same_letter(#[trigger] x@[i], y@[i]),
    {
        if !letters_match(x[k], y[k]) {
            return false;
        }
    }
    true
}

/// Whether `needle` stands in `hay` as one contiguous run.
pub open spec fn contains_run(hay: Seq<char>, needle: Seq<char>) -> bool {
    exists|k: int|
        0 <= k <= hay.len() - needle.len() && #[trigger] hay.subrange(k, k + needle.len())
            == needle
}

/// Whether the characters of `needle` are found in `hay` at the increasing positions `at`.
pub open spec fn found_at(hay: Seq<char>, needle: Seq<char>, at: Seq<int>) -> bool {
    &&& at.len() == needle.len()
    &&& forall|i: int| 0 <= i < at.len() ==> 0 <= #[trigger] at[i] < hay.len()
    &&& forall|i: int| 0 <= i < at.len() ==> hay[#[trigger] at[i]] == needle[i]
    &&& forall|i: int, j: int| 0 <= i < j < at.len() ==> #[trigger] at[i] < #[trigger] at[j]
}

/// Whether the characters of `needle` stand in `hay` in order, with or without others between.
pub open spec fn contains_scattered(hay: Seq<char>, needle: Seq<char>) -> bool {
    exists|at: Seq<int>| #[trigger] found_at(hay, needle, at)
}

/// Whether `hay` begins with `needle`.
pub(crate) fn starts_with(hay: &Vec<char>, needle: &Vec<char>) -> (r: bool)
    ensures
        r == needle@.is_prefix_of(hay@),
{
    if needle.len() > hay.len() {
        return false;
    }
    run_at(hay, needle, 0)
}

fn run_at(hay: &Vec<char>, needle: &Vec<char>, from: usize) -> (r: bool)
    requires
        from + needle@.len() <= hay@.len(),
    ensures
        r == (hay@.subrange(from as int, from + needle@.len()) == needle@),
{
    let mut k: usize = 0;
    while k < needle.len()
        invariant
            k <= needle@.len(),
            from + needle@.len() <= hay@.len(),
            forall|i: int| 0 <= i < k ==> hay@[from + i] == #[trigger] needle@[i],
        decreases needle.len() - k,
    {
        assert(from + k < hay.len());
        if hay[from + k] != needle[k] {
            proof {
                let run = hay@.subrange(from as int, from + needle@.len());
                assert(run[k as int] != needle@[k as int]);
            }
            return false;
        }
        k = k + 1;
    }
    assert(hay@.subrange(from as int, from + needle@.len()) =~= needle@);
    true
}

/// Whether `needle` stands somewhere in `hay` as one contiguous run.
pub(crate) fn has_run(hay: &Vec<char>, needle: &Vec<char>) -> (r: bool)
    ensures
        r == contains_run(hay@, needle@),
{
    if needle.len() > hay.len() {
        return false;
    }
    let last: usize = hay.len() - needle.len();
    let mut k: usize = 0;
    while k <= last
        invariant
            last == hay@.len() - needle@.len(),
            k <= last + 1,
            forall|i: int|
                0 <= i < k ==> #[trigger] hay@.subrange(i, i + needle@.len()) != needle@,
        decreases last + 1 - k,
    {
        if run_at(hay, needle, k) {
            return true;
        }
        if k == last {
            return false;
        }
        k = k + 1;
    }
    false
}

/// Whether the first `m` characters of `needle` stand in order in the first `k` of `hay`.
spec fn embeds(hay: Seq<char>, needle: Seq<char>, k: int, m: int) -> bool {
    contains_scattered(hay.take(k), needle.take(m))
}

/// One more character of `hay` helps only where it is the last of the characters sought.
proof fn lemma_embeds_step(hay: Seq<char>, needle: Seq<char>, k: int, m: int)
    requires
        0 <= k < hay.len(),
        0 <= m <= needle.len(),
    ensures
        embeds(hay, needle, k + 1, m) == (embeds(hay, needle, k, m) || (m > 0 && hay[k]
            == needle[m - 1] && embeds(hay, needle, k, m - 1))),
{
    let (seen, wider, part) = (hay.take(k), hay.take(k + 1), needle.take(m));
    if embeds(hay, needle, k, m) {
        let at = choose|at: Seq<int>| #[trigger] found_at(seen, part, at);
        assert(found_at(wider, part, at));
    }
    if m > 0 && hay[k] == needle[m - 1] && embeds(hay, needle, k, m - 1) {
        let at = choose|at: Seq<int>| #[trigger] found_at(seen, needle.take(m - 1), at);
        assert(found_at(wider, part, at.push(k)));
    }
    if embeds(hay, needle, k + 1, m) {
        let at = choose|at: Seq<int>| #[trigger] found_at(wider, part, at);
        if m == 0 {
            assert(found_at(seen, part, at));
        } else {
            lemma_found_at_drop(hay, needle, m, at, k);
        }
    }
}

/// Whether the characters of `needle` stand in `hay` in order.
pub(crate) fn has_scattered(hay: &Vec<char>, needle: &Vec<char>) -> (r: bool)
    ensures
        r == contains_scattered(hay@, needle@),
{
    let mut matched: usize = 0;
    proof {
        assert(found_at(hay@.take(0), needle@.take(0), Seq::empty()));
        assert forall|m: int| 0 < m <= needle@.len() implies !#[trigger] embeds(
            hay@,
            needle@,
            0,
            m,
        ) by {
            if embeds(hay@, needle@, 0, m) {
                let at = choose|at: Seq<int>| #[trigger]
                    found_at(hay@.take(0), needle@.take(m), at);
                assert(0 <= at[0] < hay@.take(0).len());
            }
        }
    }
    let mut k: usize = 0;
    while k < hay.len()
        invariant
            k <= hay@.len(),
            matched <= needle@.len(),
            embeds(hay@, needle@, k as int, matched as int),
            forall|m: int|
                matched < m <= needle@.len() ==> !#[trigger] embeds(hay@, needle@, k as int, m),
        decreases hay.len() - k,
    {
        proof {
            assert forall|m: int| 0 <= m <= needle@.len() implies #[trigger] embeds(
                hay@,
                needle@,
                k + 1,
                m,
            ) == (embeds(hay@, needle@, k as int, m) || (m > 0 && hay@[k as int] == needle@[m - 1]
                && embeds(hay@, needle@, k as int, m - 1))) by {
                lemma_embeds_step(hay@, needle@, k as int, m);
            }
        }
        if matched < needle.len() && hay[k] == needle[matched] {
            matched = matched + 1;
        }
        k = k + 1;
    }
    proof {
        assert(hay@.take(hay@.len() as int) =~= hay@);
        assert(needle@.take(needle@.len() as int) =~= needle@);
        assert(embeds(hay@, needle@, hay@.len() as int, needle@.len() as int)
            == contains_scattered(hay@, needle@));
    }
    matched == needle.len()
}

/// Positions found within the first `k + 1` characters either end at `k` or avoid it.
proof fn lemma_found_at_drop(hay: Seq<char>, needle: Seq<char>, m: int, p: Seq<int>, k: int)
    requires
        0 < m <= needle.len(),
        0 <= k < hay.len(),
        found_at(hay.take(k + 1), needle.take(m), p),
    ensures
        p[m - 1] != k ==> found_at(hay.take(k), needle.take(m), p),
        p[m - 1] == k ==> found_at(hay.take(k), needle.take(m - 1), p.drop_last()),
        hay[p[m - 1]] == needle[m - 1],
{
    assert(hay.take(k + 1)[p[m - 1]] == needle.take(m)[m - 1]);
    if p[m - 1] != k {
        assert forall|i: int| 0 <= i < p.len() implies 0 <= #[trigger] p[i] < hay.take(k).len()
            && hay.take(k)[p[i]] == needle.take(m)[i] by {
            assert(hay.take(k + 1)[p[i]] == needle.take(m)[i]);
            if i < m - 1 {
                assert(p[i] < p[m - 1]);
            }
        }
    } else {
        let q = p.drop_last();
        assert forall|i: int| 0 <= i < q.len() implies 0 <= #[trigger] q[i] < hay.take(k).len()
            && hay.take(k)[q[i]] == needle.take(m - 1)[i] by {
            assert(q[i] == p[i]);
            assert(hay.take(k + 1)[p[i]] == needle.take(m)[i]);
            assert(p[i] < p[m - 1]);
        }
    }
}

/// The decimal digit for `d`.
pub open spec fn digit(d: nat) -> char {
    if d == 0 {
        '0'
    } else if d == 1 {
        '1'
    } else if d == 2 {
        '2'
    } else if d == 3 {
        '3'
    } else if d == 4 {
        '4'
    } else if d == 5 {
        '5'
    } else if d == 6 {
        '6'
    } else if d == 7 {
        '7'
    } else if d == 8 {
        '8'
    } else {
        '9'
    }
}

/// A number written in decimal, without leading zeros.
pub open spec fn decimal(n: nat) -> Seq<char>
    decreases n,
{
    if n < 10 {
        seq![digit(n)]
    } else {
        decimal(n / 10).push(digit(n % 10))
    }
}

fn digit_char(d: u64) -> (c: char)
    requires
        d < 10,
    ensures
        c == digit(d as nat),
{
    match d {
        0 => '0',
        1 => '1',
        2 => '2',
        3 => '3',
        4 => '4',
        5 => '5',
        6 => '6',
        7 => '7',
        8 => '8',
        _ => '9',
    }
}

/// Writes a number in decimal.
pub(crate) fn decimal_text(n: u64) -> (r: String)
    ensures
        r@ == decimal(n as nat),
    decreases n,
{
    if n < 10 {
        let mut r = String::new();
        r.push(digit_char(n));
        assert(r@ =~= seq![digit(n as nat)]);
        r
    } else {
        let mut r = decimal_text(n / 10);
        r.push(digit_char(n % 10));
        r
    }
}

/// `count` copies of `c`.
pub open spec fn repeated(c: char, count: nat) -> Seq<char> {
    Seq::new(count, |i: int| c)
}

/// `s` with `fill` put before it until it has at least `width` characters.
pub open spec fn padded_left(s: Seq<char>, fill: char, width: nat) -> Seq<char> {
    if s.len() < width {
        repeated(fill, (width - s.len()) as nat) + s
    } else {
        s
    }
}

/// A string of `count` copies of `c`.
pub(crate) fn repeat_char(c: char, count: usize) -> (r: String)
    ensures
        r@ == repeated(c, count as nat),
{
    let mut r = String::new();
    for k in 0..count
        invariant
            r@ =~= repeated(c, k as nat),
    {
        r.push(c);
    }
    r
}

/// Puts `fill` before `s` until it has at least `width` characters.
pub(crate) fn pad_left(s: &str, fill: char, width: usize) -> (r: String)
    ensures
        r@ == padded_left(s@, fill, width as nat),
{
    let len: usize = s.unicode_len();
    if len < width {
        let mut r = repeat_char(fill, width - len);
        r.append(s);
        r
    } else {
        s.to_owned()
    }
}

/// Texts compare at the first place where they differ, by code point; a text comes before every
/// longer one that begins with it.
pub proof fn first_difference_decides(a: Seq<char>, b: Seq<char>, k: int)
    requires
        0 <= k <= a.len(),
        k <= b.len(),
        forall|i: int| 0 <= i < k ==> a[i] == b[i],
    ensures
        k == a.len() ==> text_le(a, b),
        k < a.len() && k == b.len() ==> !text_le(a, b),
        k < a.len() && k < b.len() && a[k] != b[k] ==> (text_le(a, b) <==> (a[k] as int) < (
        b[k] as int)),
        text_lt(a, b) <==> text_le(a, b) && a != b,
{
    assert(a.take(k) =~= b.take(k));
    lemma_text_le_same_prefix(a, b, k);
    if k < a.len() && k < b.len() {
        assert(a.skip(k)[0] == a[k] && b.skip(k)[0] == b[k]);
    }
}

/// A character is white space if and only if its code point is one of those that Unicode lists.
pub proof fn white_space_by_code_point(c: char)
    ensures
        is_space(c) <==> seq![
            9int,
            10,
            11,
            12,
            13,
            32,
            133,
            160,
            5760,
            8192,
            8193,
            8194,
            8195,
            8196,
            8197,
            8198,
            8199,
            8200,
            8201,
            8202,
            8232,
            8233,
            8239,
            8287,
            12288,
        ].contains(c as int),
{
    let table = seq![
        9int,
        10,
        11,
        12,
        13,
        32,
        133,
        160,
        5760,
        8192,
        8193,
        8194,
        8195,
        8196,
        8197,
        8198,
        8199,
        8200,
        8201,
        8202,
        8232,
        8233,
        8239,
        8287,
        12288,
    ];
    let u = c as int;
    if is_space(c) {
        let i: int = if u <= 13 {
            u - 9
        } else if u == 32 {
            5
        } else if u == 133 {
            6
        } else if u == 160 {
            7
        } else if u == 5760 {
            8
        } else if u <= 8202 {
            u - 8192 + 9
        } else if u == 8232 {
            20
        } else if u == 8233 {
            21
        } else if u == 8239 {
            22
        } else if u == 8287 {
            23
        } else {
            24
        };
        assert(table[i] == u);
    }
}

proof fn lemma_trim_start(s: Seq<char>) -> (i: int)
    ensures
        0 <= i <= s.len(),
        trim_start(s) == s.skip(i),
        forall|k: int| 0 <= k < i ==> is_space(#[trigger] s[k]),
        i < s.len() ==> !is_space(s[i]),
    decreases s.len(),
{
    if s.len() > 0 && is_space(s[0]) {
        let t = s.skip(1);
        let j = lemma_trim_start(t);
        assert(t.skip(j) =~= s.skip(j + 1));
        assert forall|k: int| 0 <= k < j + 1 implies is_space(#[trigger] s[k]) by {
            if k > 0 {
                assert(t[k - 1] == s[k]);
            }
        }
        if j < t.len() {
            assert(t[j] == s[j + 1]);
        }
        j + 1
    } else {
        assert(s.skip(0) =~= s);
        0
    }
}

proof fn lemma_trim_end(s: Seq<char>) -> (j: int)
    ensures
        0 <= j <= s.len(),
        trim_end(s) == s.take(j),
        forall|k: int| j <= k < s.len() ==> is_space(#[trigger] s[k]),
        j > 0 ==> !is_space(s[j - 1]),
    decreases s.len(),
{
    if s.len() > 0 && is_space(s.last()) {
        let t = s.drop_last();
        let j = lemma_trim_end(t);
        assert(t.take(j) =~= s.take(j));
        assert forall|k: int| j <= k < s.len() implies is_space(#[trigger] s[k]) by {
            if k < t.len() {
                assert(t[k] == s[k]);
            }
        }
        j
    } else {
        assert(s.take(s.len() as int) =~= s);
        s.len() as int
    }
}

/// Whether `s` from `i` to `j` is what is left of it without the white space at either end.
pub open spec fn is_core(s: Seq<char>, i: int, j: int) -> bool {
    &&& 0 <= i <= j <= s.len()
    &&& forall|k: int| 0 <= k < i ==> is_space(#[trigger] s[k])
    &&& forall|k: int| j <= k < s.len() ==> is_space(#[trigger] s[k])
    &&& i < j ==> !is_space(s[i]) && !is_space(s[j - 1])
}

/// Trimming takes away white space at the ends and nothing else.
pub proof fn trimming_keeps_the_core(s: Seq<char>)
    ensures
        exists|i: int, j: int| #[trigger] is_core(s, i, j) && trimmed(s) == s.subrange(i, j),
{
    let i = lemma_trim_start(s);
    let t = s.skip(i);
    let j = lemma_trim_end(t);
    if i < s.len() {
        assert(t[0] == s[i]);
        if j == 0 {
            assert(is_space(t[0]));
        }
    }
    assert(t.take(j) =~= s.subrange(i, i + j));
    assert forall|k: int| i + j <= k < s.len() implies is_space(#[trigger] s[k]) by {
        assert(t[k - i] == s[k]);
    }
    if j > 0 {
        assert(t[j - 1] == s[i + j - 1]);
    }
    assert(is_core(s, i, i + j));
}

/// Trimming any text with the same core gives that core, however much white space is around it.
pub proof fn trimming_gives_the_core(s: Seq<char>, i: int, j: int)
    requires
        is_core(s, i, j),
    ensures
        trimmed(s) == s.subrange(i, j),
{
    trimming_keeps_the_core(s);
    let (x, y) = choose|x: int, y: int| #[trigger]
        is_core(s, x, y) && trimmed(s) == s.subrange(x, y);
    if i < j {
        assert(!is_space(s[i]) && !is_space(s[j - 1]));
        assert(x <= i && j <= y);
        assert(!is_space(s[x]) && !is_space(s[y - 1]));
        assert(i <= x && y <= j);
    } else {
        if x < y {
            assert(!is_space(s[x]));
        }
        assert(s.subrange(x, y) =~= s.subrange(i, j));
    }
}

/// No character is white space.
pub open spec fn is_one_word(s: Seq<char>) -> bool {
    forall|k: int| 0 <= k < s.len() ==> !is_space(#[trigger] s[k])
}

/// A word, a white space and anything else are split into the word and the rest without the white
/// space around it. A word alone has nothing after it.
pub proof fn splitting_at_the_first_space(word: Seq<char>, space: char, rest: Seq<char>)
    requires
        is_one_word(word),
        is_space(space),
    ensures
        first_word(word + seq![space] + rest) == word,
        after_word(word + seq![space] + rest) == trimmed(rest),
        first_word(word) == word,
        after_word(word) == Seq::<char>::empty(),
{
    let s = word + seq![space] + rest;
    lemma_word_len_unique(s, word.len() as int);
    lemma_word_len_unique(word, word.len() as int);
    assert(s.take(word.len() as int) =~= word);
    assert(s.skip(word.len() as int + 1) =~= rest);
    assert(word.take(word.len() as int) =~= word);
}

/// The code point of a character, that of the small letter for a capital from `A` to `Z`.
pub open spec fn caseless(c: char) -> int {
    if 65 <= c as int <= 90 {
        c as int + 32
    } else {
        c as int
    }
}

/// Texts are the same but for ASCII case if and only if their characters have the same code points
/// once capitals from `A` to `Z` have become small; and lowering their case does just that.
pub proof fn ascii_case_by_code_point(a: Seq<char>, b: Seq<char>)
    ensures
        same_ignoring_ascii_case(a, b) <==> a.len() == b.len() && forall|i: int|
            0 <= i < a.len() ==> caseless(#[trigger] a[i]) == caseless(b[i]),
        ascii_lowered(a).len() == a.len(),
        forall|i: int|
            0 <= i < a.len() ==> #[trigger] ascii_lowered(a)[i] as int == caseless(a[i]),
{
    if a.len() == b.len() && (forall|i: int|
        0 <= i < a.len() ==> caseless(#[trigger] a[i]) == caseless(b[i])) {
        assert forall|i: int| 0 <= i < a.len() implies same_letter(#[trigger] a[i], b[i]) by {
            assert(caseless(a[i]) == caseless(b[i]));
        }
    }
    if same_ignoring_ascii_case(a, b) {
        assert forall|i: int| 0 <= i < a.len() implies caseless(#[trigger] a[i]) == caseless(
            b[i],
        ) by {
            assert(same_letter(a[i], b[i]));
        }
    }
}

/// A text contains another as a run if and only if something before it and something behind it
/// complete it to the text.
pub proof fn runs_are_completed(before: Seq<char>, needle: Seq<char>, behind: Seq<char>)
    ensures
        contains_run(before + needle + behind, needle),
{
    let hay = before + needle + behind;
    let k = before.len() as int;
    assert(hay.subrange(k, k + needle.len()) =~= needle);
}

/// A text that contains another as a run is that run, completed before and behind.
pub proof fn runs_split_the_text(hay: Seq<char>, needle: Seq<char>) -> (parts: (Seq<char>, Seq<char>))
    requires
        contains_run(hay, needle),
    ensures
        hay == parts.0 + needle + parts.1,
{
    let k = choose|k: int|
        0 <= k <= hay.len() - needle.len() && #[trigger] hay.subrange(k, k + needle.len())
            == needle;
    let (before, behind) = (hay.take(k), hay.skip(k + needle.len()));
    assert(hay =~= before + hay.subrange(k, k + needle.len()) + behind);
    (before, behind)
}

/// Characters are found in order by taking each at its first chance: nothing is found everywhere,
/// something is not found in nothing, and the first character of a text either is the first one
/// sought or does not matter.
pub proof fn scattered_step_by_step(hay: Seq<char>, needle: Seq<char>)
    ensures
        needle.len() == 0 ==> contains_scattered(hay, needle),
        needle.len() > 0 && hay.len() == 0 ==> !contains_scattered(hay, needle),
        needle.len() > 0 && hay.len() > 0 ==> (contains_scattered(hay, needle)
            <==> contains_scattered(
            hay.skip(1),
            if hay[0] == needle[0] {
                needle.skip(1)
            } else {
                needle
            },
        )),
{
    if needle.len() == 0 {
        assert(found_at(hay, needle, Seq::empty()));
    } else if hay.len() == 0 {
        if contains_scattered(hay, needle) {
            let at = choose|at: Seq<int>| #[trigger] found_at(hay, needle, at);
            assert(0 <= at[0] < hay.len());
        }
    } else {
        let tail = hay.skip(1);
        let sought = if hay[0] == needle[0] {
            needle.skip(1)
        } else {
            needle
        };
        if contains_scattered(hay, needle) {
            let at = choose|at: Seq<int>| #[trigger] found_at(hay, needle, at);
            let skipped: int = if hay[0] == needle[0] {
                1
            } else {
                0
            };
            let to = Seq::new(sought.len(), |i: int| at[i + skipped] - 1);
            assert forall|i: int| 0 <= i < to.len() implies 0 <= #[trigger] to[i] < tail.len()
                && tail[to[i]] == sought[i] by {
                assert(0 <= at[i + skipped] < hay.len());
                assert(hay[at[i + skipped]] == needle[i + skipped]);
                assert(0 <= at[0] < hay.len() && hay[at[0]] == needle[0]);
                if i + skipped > 0 {
                    assert(at[0] < at[i + skipped]);
                }
            }
            assert forall|i: int, j: int| 0 <= i < j < to.len() implies #[trigger] to[i]
                < #[trigger] to[j] by {
                assert(at[i + skipped] < at[j + skipped]);
            }
            assert(found_at(tail, sought, to));
        }
        if contains_scattered(tail, sought) {
            let to = choose|to: Seq<int>| #[trigger] found_at(tail, sought, to);
            let later = Seq::new(to.len(), |i: int| to[i] + 1);
            let at = if hay[0] == needle[0] {
                seq![0int] + later
            } else {
                later
            };
            let skipped: int = at.len() - to.len();
            assert forall|i: int| 0 <= i < at.len() implies 0 <= #[trigger] at[i] < hay.len()
                && hay[at[i]] == needle[i] by {
                if i >= skipped {
                    assert(at[i] == to[i - skipped] + 1);
                    assert(0 <= to[i - skipped] < tail.len());
                    assert(tail[to[i - skipped]] == sought[i - skipped]);
                }
            }
            assert forall|i: int, j: int| 0 <= i < j < at.len() implies #[trigger] at[i]
                < #[trigger] at[j] by {
                assert(at[j] == to[j - skipped] + 1);
                assert(0 <= to[j - skipped] < tail.len());
                if i >= skipped {
                    assert(at[i] == to[i - skipped] + 1);
                    assert(to[i - skipped] < to[j - skipped]);
                }
            }
            assert(found_at(hay, needle, at));
        }
    }
}

/// The number that a row of digits means.
pub open spec fn value_of(digits: Seq<char>) -> int
    decreases digits.len(),
{
    if digits.len() == 0 {
        0
    } else {
        10 * value_of(digits.drop_last()) + (digits.last() as int - 48)
    }
}

/// Every character is a decimal digit.
pub open spec fn all_digits(s: Seq<char>) -> bool {
    forall|i: int| 0 <= i < s.len() ==> 48 <= (#[trigger] s[i]) as int <= 57
}

/// A number in decimal reads back as the number, is made of digits, and has no leading zero.
pub proof fn decimal_reads_back(n: nat)
    ensures
        value_of(decimal(n)) == n,
        all_digits(decimal(n)),
        decimal(n).len() >= 1,
        n > 0 ==> decimal(n)[0] != '0',
        n < 10 <==> decimal(n).len() == 1,
    decreases n,
{
    if n < 10 {
        let one = decimal(n);
        assert(one.drop_last() =~= Seq::empty());
        assert(value_of(one.drop_last()) == 0);
        assert(one.last() as int == 48 + n);
    } else {
        let front = decimal(n / 10);
        decimal_reads_back(n / 10);
        let all = decimal(n);
        assert(all.drop_last() =~= front);
        assert(all.last() as int == 48 + n % 10);
        assert(all[0] == front[0]);
        assert forall|i: int| 0 <= i < all.len() implies 48 <= (#[trigger] all[i]) as int <= 57 by {
            if i < front.len() {
                assert(all[i] == front[i]);
            }
        }
    }
}

/// Padding puts as many copies of the filling in front as are missing, and keeps the text.
pub proof fn padding_fills_the_front(s: Seq<char>, fill: char, width: nat)
    ensures
        ({
            let r = padded_left(s, fill, width);
            let added = r.len() - s.len();
            &&& r.len() == (if s.len() < width {
                width
            } else {
                s.len()
            })
            &&& r.skip(added) == s
            &&& forall|i: int| 0 <= i < added ==> #[trigger] r[i] == fill
        }),
{
    let r = padded_left(s, fill, width);
    assert(r.skip(r.len() - s.len()) =~= s);
}

proof fn lemma_value_of_zeros(zeros: Seq<char>, s: Seq<char>)
    requires
        forall|i: int| 0 <= i < zeros.len() ==> zeros[i] == '0',
    ensures
        value_of(zeros + s) == value_of(s),
    decreases zeros.len() + s.len(),
{
    let all = zeros + s;
    if s.len() > 0 {
        assert(all.drop_last() =~= zeros + s.drop_last());
        lemma_value_of_zeros(zeros, s.drop_last());
    } else if zeros.len() > 0 {
        assert(all.drop_last() =~= zeros.drop_last() + s);
        lemma_value_of_zeros(zeros.drop_last(), s);
    } else {
        assert(all =~= s);
    }
}

/// A number with leading zeros up to a width still reads back as the number.
pub proof fn padded_numbers_read_back(n: nat, width: nat)
    ensures
        value_of(padded_left(decimal(n), '0', width)) == n,
        all_digits(padded_left(decimal(n), '0', width)),
        padded_left(decimal(n), '0', width).len() >= width,
        n < 100 && width == 2 ==> padded_left(decimal(n), '0', width).len() == 2,
{
    decimal_reads_back(n);
    let s = decimal(n);
    if s.len() < width {
        lemma_value_of_zeros(repeated('0', (width - s.len()) as nat), s);
    }
    if 10 <= n < 100 {
        decimal_reads_back(n / 10);
    }
}

} // verus!
