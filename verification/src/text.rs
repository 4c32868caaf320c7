//! Text handling over Unicode scalar values.
//!
//! The view of a string is the sequence of its characters. Everything here is
//! stated over that view: trimming and splitting on white space, ASCII case,
//! prefixes and suffixes, and the decimal and hexadecimal numerals that the
//! wire formats and cache file names use.

use vstd::prelude::*;

verus! {

/// `String::push` appends the given character to the end of the string.
pub assume_specification[ String::push ](s: &mut String, c: char)
    ensures
        final(s)@ == old(s)@.push(c),
;

/// The lower-case form that `str::to_lowercase` gives a text.
pub uninterp spec fn unicode_lowercase(text: Seq<char>) -> Seq<char>;

/// `str::to_lowercase`, whose result depends on the text alone.
#[verifier::external_body]
fn std_lowercase(text: &str) -> (r: String)
    ensures
        r@ == unicode_lowercase(text@),
{
    text.to_lowercase()
}

/// The quoted and escaped form that the `{:?}` format gives a text.
pub uninterp spec fn debug_quoted(text: Seq<char>) -> Seq<char>;

/// The `Debug` form of a `str`, which depends on the text alone.
#[verifier::external_body]
pub(crate) fn quoted(text: &str) -> (r: String)
    ensures
        r@ == debug_quoted(text@),
{
    format!("{text:?}")
}

/// The characters of a text, in order.
pub fn chars_of(s: &str) -> (r: Vec<char>)
    ensures
        r@ == s@,
{
    let mut out: Vec<char> = Vec::new();
    for c in it: s.chars()
        invariant
            it.seq() == s@,
            out@ == s@.take(it.index()),
    {
        out.push(c);
    }
    assert(s@.take(s@.len() as int) == s@);
    out
}

/// The text made of `chars[from..to]`.
pub fn string_of(chars: &Vec<char>, from: usize, to: usize) -> (r: String)
    requires
        from <= to <= chars@.len(),
    ensures
        r@ == chars@.subrange(from as int, to as int),
{
    let mut out = String::new();
    let mut i: usize = from;
    while i < to
        invariant
            from <= i <= to <= chars@.len(),
            out@ == chars@.subrange(from as int, i as int),
        decreases to - i,
    {
        out.push(chars[i]);
        i += 1;
        assert(chars@.subrange(from as int, i as int) == chars@.subrange(
            from as int,
            i as int - 1,
        ).push(chars@[i as int - 1]));
    }
    out
}

/// Whether two texts are the same.
pub fn same_text(a: &str, b: &str) -> (r: bool)
    ensures
        r == (a@ == b@),
{
    a.to_owned() == b.to_owned()
}

/// The concatenation of two texts.
pub fn joined2(a: &str, b: &str) -> (r: String)
    ensures
        r@ == a@ + b@,
{
    let mut out = a.to_owned();
    out.append(b);
    out
}

/// The concatenation of three texts.
pub fn joined3(a: &str, b: &str, c: &str) -> (r: String)
    ensures
        r@ == a@ + b@ + c@,
{
    let mut out = a.to_owned();
    out.append(b);
    out.append(c);
    out
}

/// The concatenation of four texts.
pub fn joined4(a: &str, b: &str, c: &str, d: &str) -> (r: String)
    ensures
        r@ == a@ + b@ + c@ + d@,
{
    let mut out = a.to_owned();
    out.append(b);
    out.append(c);
    out.append(d);
    out
}

// ---- white space ---------------------------------------------------------

/// The characters with the Unicode property `White_Space`.
pub open spec fn white(c: char) -> bool {
    let n = c as u32;
    ||| 0x9 <= n <= 0xd
    ||| n == 0x20
    ||| n == 0x85
    ||| n == 0xa0
    ||| n == 0x1680
    ||| 0x2000 <= n <= 0x200a
    ||| n == 0x2028
    ||| n == 0x2029
    ||| n == 0x202f
    ||| n == 0x205f
    ||| n == 0x3000
}

/// Whether `c` is white space.
pub fn is_white(c: char) -> (r: bool)
    ensures
        r == white(c),
{
    let n: u32 = c as u32;
    (0x9 <= n && n <= 0xd) || n == 0x20 || n == 0x85 || n == 0xa0 || n == 0x1680 || (0x2000 <= n
        && n <= 0x200a) || n == 0x2028 || n == 0x2029 || n == 0x202f || n == 0x205f || n == 0x3000
}

/// `s` without its leading white space.
pub open spec fn trimmed_start(s: Seq<char>) -> Seq<char>
    decreases s.len(),
{
    if s.len() > 0 && white(s[0]) {
        trimmed_start(s.skip(1))
    } else {
        s
    }
}

/// `s` without its trailing white space.
pub open spec fn trimmed_end(s: Seq<char>) -> Seq<char>
    decreases s.len(),
{
    if s.len() > 0 && white(s.last()) {
        trimmed_end(s.drop_last())
    } else {
        s
    }
}

/// `s` without white space at either end.
pub open spec fn trimmed(s: Seq<char>) -> Seq<char> {
    trimmed_end(trimmed_start(s))
}

/// Removes white space from both ends.
pub fn trim(s: &str) -> (r: &str)
    ensures
        r@ == trimmed(s@),
{
    let v = chars_of(s);
    let n: usize = v.len();
    let mut a: usize = 0;
    assert(s@.skip(0) == s@);
    while a < n && is_white(v[a])
        invariant
            n == v@.len(),
            v@ == s@,
            a <= n,
            trimmed_start(s@) == trimmed_start(s@.skip(a as int)),
        decreases n - a,
    {
        assert(s@.skip(a as int).skip(1) == s@.skip(a as int + 1));
        a += 1;
    }
    let mut b: usize = n;
    assert(s@.skip(a as int) == s@.subrange(a as int, n as int));
    while b > a && is_white(v[b - 1])
        invariant
            n == v@.len(),
            v@ == s@,
            a <= b <= n,
            trimmed(s@) == trimmed_end(s@.subrange(a as int, b as int)),
        decreases b,
    {
        assert(s@.subrange(a as int, b as int).drop_last() == s@.subrange(a as int, b as int - 1));
        b -= 1;
    }
    s.substring_char(a, b)
}

/// The number of characters before the first white space of `s`.
pub open spec fn word_len(s: Seq<char>) -> nat
    decreases s.len(),
{
    if s.len() > 0 && !white(s[0]) {
        1 + word_len(s.skip(1))
    } else {
        0
    }
}

/// The maximal runs of `s` that hold no white space, in order.
pub open spec fn words(s: Seq<char>) -> Seq<Seq<char>>
    decreases s.len(),
{
    if s.len() == 0 {
        Seq::empty()
    } else if white(s[0]) {
        words(s.skip(1))
    } else if word_len(s) >= s.len() {
        seq![s]
    } else {
        seq![s.take(word_len(s) as int)] + words(s.skip(word_len(s) as int))
    }
}

/// The views of a list of strings.
pub open spec fn texts(list: Seq<String>) -> Seq<Seq<char>> {
    list.map_values(|s: String| s@)
}

/// The views of a list of strings to which one more is appended.
pub proof fn texts_push(list: Seq<String>, s: String)
    ensures
        texts(list.push(s)) == texts(list).push(s@),
{
    assert(texts(list.push(s)) == texts(list).push(s@));
}

/// Appends a copy of `s` to a list.
pub fn push_text(list: &mut Vec<String>, s: &str)
    ensures
        texts(final(list)@) == texts(old(list)@).push(s@),
{
    let ghost before = list@;
    let owned = s.to_owned();
    list.push(owned);
    proof {
        texts_push(before, owned);
    }
}

/// Splits a text at its white space.
pub fn split_words(s: &str) -> (r: Vec<String>)
    ensures
        texts(r@) == words(s@),
{
    let v = chars_of(s);
    let n: usize = v.len();
    let mut out: Vec<String> = Vec::new();
    let mut i: usize = 0;
    assert(s@.skip(0) == s@);
    assert(texts(out@) + words(s@) == words(s@));
    while i < n
        invariant
            n == v@.len(),
            v@ == s@,
            i <= n,
            words(s@) == texts(out@) + words(s@.skip(i as int)),
        decreases n - i,
    {
        let ghost rest = s@.skip(i as int);
        if is_white(v[i]) {
            assert(rest.skip(1) == s@.skip(i as int + 1));
            i += 1;
        } else {
            let mut j: usize = i;
            assert(s@.skip(i as int) == rest);
            while j < n && !is_white(v[j])
                invariant
                    n == v@.len(),
                    v@ == s@,
                    i <= j <= n,
                    i < n,
                    rest == s@.skip(i as int),
                    word_len(rest) == (j - i) + word_len(s@.skip(j as int)),
                decreases n - j,
            {
                assert(s@.skip(j as int).skip(1) == s@.skip(j as int + 1));
                j += 1;
            }
            assert(word_len(rest) == j - i);
            let w = string_of(&v, i, j);
            assert(w@ == rest.take(j - i));
            let ghost before = texts(out@);
            out.push(w);
            assert(texts(out@) == before.push(w@));
            assert(j - i >= 1);
            assert(words(s@) == texts(out@) + words(s@.skip(j as int))) by {
                if j == n {
                    assert(rest.take(j - i) == rest);
                    assert(words(s@.skip(j as int)) == Seq::<Seq<char>>::empty());
                    assert(before + seq![rest] == before.push(w@) + Seq::<Seq<char>>::empty());
                } else {
                    assert(rest.skip(j - i) == s@.skip(j as int));
                    assert(before + (seq![w@] + words(s@.skip(j as int))) == before.push(w@) + words(
                        s@.skip(j as int),
                    ));
                }
            }
            i = j;
        }
    }
    assert(words(s@.skip(i as int)) == Seq::<Seq<char>>::empty());
    assert(texts(out@) + Seq::<Seq<char>>::empty() == texts(out@));
    out
}

// ---- prefixes and suffixes ----------------------------------------------

/// Whether `s` begins with `p`.
pub fn starts_with(s: &str, p: &str) -> (r: bool)
    ensures
        r == p@.is_prefix_of(s@),
{
    let v = chars_of(s);
    let q = chars_of(p);
    if q.len() > v.len() {
        return false;
    }
    let mut i: usize = 0;
    while i < q.len()
        invariant
            q@ == p@,
            v@ == s@,
            i <= q@.len() <= v@.len(),
            q@.take(i as int) == v@.take(i as int),
        decreases q@.len() - i,
    {
        if q[i] != v[i] {
            assert(p@[i as int] != s@.subrange(0, p@.len() as int)[i as int]);
            return false;
        }
        assert(q@.take(i as int + 1) == q@.take(i as int).push(q@[i as int]));
        assert(v@.take(i as int + 1) == v@.take(i as int).push(v@[i as int]));
        i += 1;
    }
    assert(q@.take(q@.len() as int) == q@);
    assert(p@ == s@.subrange(0, p@.len() as int));
    true
}

/// Whether `s` ends with `p`.
pub fn ends_with(s: &str, p: &str) -> (r: bool)
    ensures
        r == p@.is_suffix_of(s@),
{
    let n: usize = s.unicode_len();
    let m: usize = p.unicode_len();
    if m > n {
        return false;
    }
    let tail = s.substring_char(n - m, n);
    assert(tail@ == s@.subrange(s@.len() - p@.len(), s@.len() as int));
    same_text(tail, p)
}

/// What follows the prefix `p` of `s`, if `s` has it.
pub fn strip_prefix<'a>(s: &'a str, p: &str) -> (r: Option<&'a str>)
    ensures
        r is Some <==> p@.is_prefix_of(s@),
        r matches Some(rest) ==> rest@ == s@.skip(p@.len() as int),
{
    if starts_with(s, p) {
        let n: usize = s.unicode_len();
        let m: usize = p.unicode_len();
        let rest = s.substring_char(m, n);
        assert(rest@ == s@.skip(p@.len() as int));
        Some(rest)
    } else {
        None
    }
}

/// `s` without the `c`s that it ends with.
pub open spec fn without_trailing(s: Seq<char>, c: char) -> Seq<char>
    decreases s.len(),
{
    if s.len() > 0 && s.last() == c {
        without_trailing(s.drop_last(), c)
    } else {
        s
    }
}

/// Removes every trailing `c`.
pub fn trim_end_char(s: &str, c: char) -> (r: &str)
    ensures
        r@ == without_trailing(s@, c),
{
    let v = chars_of(s);
    let mut b: usize = v.len();
    assert(s@.take(b as int) == s@);
    while b > 0 && v[b - 1] == c
        invariant
            v@ == s@,
            b <= v@.len(),
            without_trailing(s@, c) == without_trailing(s@.take(b as int), c),
        decreases b,
    {
        assert(s@.take(b as int).drop_last() == s@.take(b as int - 1));
        b -= 1;
    }
    assert(s@.take(b as int) == s@.subrange(0, b as int));
    s.substring_char(0, b)
}

/// The first `max` characters of `s`, or all of them.
pub open spec fn first_chars(s: Seq<char>, max: nat) -> Seq<char> {
    if s.len() <= max {
        s
    } else {
        s.take(max as int)
    }
}

/// The first `max` characters of `s`, or all of them.
pub fn take_chars(s: &str, max: usize) -> (r: String)
    ensures
        r@ == first_chars(s@, max as nat),
{
    let n: usize = s.unicode_len();
    if n <= max {
        s.to_owned()
    } else {
        let head = s.substring_char(0, max);
        assert(head@ == s@.take(max as int));
        head.to_owned()
    }
}

/// The number of bytes that `c` takes in UTF-8.
pub open spec fn utf8_width(c: char) -> nat {
    let n = c as u32;
    if n < 0x80 {
        1
    } else if n < 0x800 {
        2
    } else if n < 0x1_0000 {
        3
    } else {
        4
    }
}

/// The longest beginning of `s` that takes at most `max` bytes in UTF-8.
pub open spec fn first_bytes(s: Seq<char>, max: nat) -> Seq<char>
    decreases s.len(),
{
    if s.len() == 0 || utf8_width(s[0]) > max {
        Seq::empty()
    } else {
        seq![s[0]] + first_bytes(s.skip(1), (max - utf8_width(s[0])) as nat)
    }
}

/// The longest beginning of `s` that takes at most `max` bytes in UTF-8.
pub fn take_bytes(s: &str, max: usize) -> (r: String)
    ensures
        r@ == first_bytes(s@, max as nat),
{
    let v = chars_of(s);
    let mut out = String::new();
    let mut left: usize = max;
    let mut i: usize = 0;
    assert(s@.skip(0) == s@);
    assert(out@ + first_bytes(s@, max as nat) == first_bytes(s@, max as nat));
    while i < v.len()
        invariant
            v@ == s@,
            i <= v@.len(),
            first_bytes(s@, max as nat) == out@ + first_bytes(s@.skip(i as int), left as nat),
        decreases v@.len() - i,
    {
        let c = v[i];
        let n: u32 = c as u32;
        let width: usize = if n < 0x80 {
            1
        } else if n < 0x800 {
            2
        } else if n < 0x1_0000 {
            3
        } else {
            4
        };
        let ghost rest = s@.skip(i as int);
        if width > left {
            assert(out@ + Seq::<char>::empty() == out@);
            return out;
        }
        let ghost before = out@;
        out.push(c);
        left -= width;
        i += 1;
        assert(rest.skip(1) == s@.skip(i as int));
        assert(before + (seq![c] + first_bytes(s@.skip(i as int), left as nat)) == out@
            + first_bytes(s@.skip(i as int), left as nat));
    }
    assert(out@ + Seq::<char>::empty() == out@);
    out
}

/// Whether a text is white space throughout.
pub open spec fn all_white(s: Seq<char>) -> bool {
    forall|i: int| 0 <= i < s.len() ==> white(#[trigger] s[i])
}

proof fn lemma_trimmed_start_of_white(w: Seq<char>, s: Seq<char>)
    requires
        all_white(w),
    ensures
        trimmed_start(w + s) == trimmed_start(s),
    decreases w.len(),
{
    if w.len() == 0 {
        assert(w + s == s);
    } else {
        let rest = w.skip(1);
        assert(all_white(rest)) by {
            assert forall|i: int| 0 <= i < rest.len() implies white(#[trigger] rest[i]) by {
                assert(rest[i] == w[i + 1]);
            }
        }
        lemma_trimmed_start_of_white(rest, s);
        assert((w + s).skip(1) == rest + s);
    }
}

proof fn lemma_trimmed_end_of_white(s: Seq<char>, w: Seq<char>)
    requires
        all_white(w),
    ensures
        trimmed_end(s + w) == trimmed_end(s),
    decreases w.len(),
{
    if w.len() == 0 {
        assert(s + w == s);
    } else {
        let rest = w.drop_last();
        assert(all_white(rest)) by {
            assert forall|i: int| 0 <= i < rest.len() implies white(#[trigger] rest[i]) by {
                assert(rest[i] == w[i]);
            }
        }
        lemma_trimmed_end_of_white(s, rest);
        assert((s + w).last() == w[w.len() - 1]);
        assert((s + w).drop_last() == s + rest);
    }
}

proof fn lemma_trimmed_start_then_white(s: Seq<char>, w: Seq<char>)
    requires
        all_white(w),
    ensures
        trimmed_end(trimmed_start(s + w)) == trimmed_end(trimmed_start(s)),
    decreases s.len(),
{
    if s.len() == 0 {
        assert(s + w == w + s);
        lemma_trimmed_start_of_white(w, s);
    } else if white(s[0]) {
        lemma_trimmed_start_then_white(s.skip(1), w);
        assert((s + w).skip(1) == s.skip(1) + w);
    } else {
        lemma_trimmed_end_of_white(s, w);
        assert((s + w)[0] == s[0]);
    }
}

/// White space around a text is trimmed away, however much there is.
pub proof fn surrounding_white_is_trimmed(before: Seq<char>, s: Seq<char>, after: Seq<char>)
    requires
        all_white(before),
        all_white(after),
    ensures
        trimmed(before + s + after) == trimmed(s),
{
    assert(before + s + after == before + (s + after));
    lemma_trimmed_start_of_white(before, s + after);
    lemma_trimmed_start_then_white(s, after);
}

/// A text that begins and ends with more than white space is trimmed already.
pub proof fn lemma_trimmed_already(s: Seq<char>)
    requires
        s.len() > 0,
        !white(s[0]),
        !white(s.last()),
    ensures
        trimmed(s) == s,
{
}

/// What is left after trimming does not end in white space.
pub proof fn lemma_trimmed_last(s: Seq<char>)
    ensures
        trimmed(s).len() > 0 ==> !white(trimmed(s).last()),
{
    lemma_trimmed_end_last(trimmed_start(s));
}

proof fn lemma_trimmed_end_last(s: Seq<char>)
    ensures
        trimmed_end(s).len() > 0 ==> !white(trimmed_end(s).last()),
    decreases s.len(),
{
    if s.len() > 0 && white(s.last()) {
        lemma_trimmed_end_last(s.drop_last());
    }
}

// ---- letter case ---------------------------------------------------------

/// `c`, or its lower-case form where it is one of `A` to `Z`.
pub open spec fn ascii_lower_char(c: char) -> char {
    if 0x41 <= c as u32 <= 0x5a {
        ((c as u32 + 32) as u32) as char
    } else {
        c
    }
}

/// `s` with the letters `A` to `Z` in lower case.
pub open spec fn ascii_lower(s: Seq<char>) -> Seq<char> {
    s.map_values(|c: char| ascii_lower_char(c))
}

/// Puts the letters `A` to `Z` in lower case and leaves all else.
pub fn to_ascii_lower(s: &str) -> (r: String)
    ensures
        r@ == ascii_lower(s@),
{
    let v = chars_of(s);
    let mut out = String::new();
    let mut i: usize = 0;
    while i < v.len()
        invariant
            v@ == s@,
            i <= v@.len(),
            out@ == ascii_lower(s@.take(i as int)),
        decreases v@.len() - i,
    {
        let c = v[i];
        let n: u32 = c as u32;
        if 0x41 <= n && n <= 0x5a {
            let b: u8 = n as u8;
            out.push((b + 32) as char);
        } else {
            out.push(c);
        }
        assert(s@.take(i as int + 1) == s@.take(i as int).push(s@[i as int]));
        assert(ascii_lower(s@.take(i as int + 1)) == ascii_lower(s@.take(i as int)).push(
            ascii_lower_char(s@[i as int]),
        ));
        i += 1;
    }
    assert(s@.take(s@.len() as int) == s@);
    out
}

/// The lower-case form of a text: letter by letter where the text is ASCII,
/// the Unicode mapping where it is not.
pub open spec fn lower(s: Seq<char>) -> Seq<char> {
    if vstd::utf8::is_ascii_chars(s) {
        ascii_lower(s)
    } else {
        unicode_lowercase(s)
    }
}

/// Puts a text in lower case.
pub fn to_lower(s: &str) -> (r: String)
    ensures
        r@ == lower(s@),
{
    if s.is_ascii() {
        to_ascii_lower(s)
    } else {
        std_lowercase(s)
    }
}

proof fn lemma_ascii_lower_trimmed_start(s: Seq<char>)
    ensures
        trimmed_start(ascii_lower(s)) == ascii_lower(trimmed_start(s)),
    decreases s.len(),
{
    if s.len() > 0 {
        lemma_ascii_lower_trimmed_start(s.skip(1));
        assert(ascii_lower(s).skip(1) == ascii_lower(s.skip(1)));
        assert(white(ascii_lower(s)[0]) == white(s[0]));
    }
}

proof fn lemma_ascii_lower_trimmed_end(s: Seq<char>)
    ensures
        trimmed_end(ascii_lower(s)) == ascii_lower(trimmed_end(s)),
    decreases s.len(),
{
    if s.len() > 0 {
        lemma_ascii_lower_trimmed_end(s.drop_last());
        assert(ascii_lower(s).drop_last() == ascii_lower(s.drop_last()));
        assert(white(ascii_lower(s).last()) == white(s.last()));
    }
}

/// Trimming and putting the letters `A` to `Z` in lower case commute.
pub proof fn lemma_ascii_lower_trimmed(s: Seq<char>)
    ensures
        trimmed(ascii_lower(s)) == ascii_lower(trimmed(s)),
{
    lemma_ascii_lower_trimmed_start(s);
    lemma_ascii_lower_trimmed_end(trimmed_start(s));
}

proof fn lemma_trimmed_start_ascii(s: Seq<char>)
    requires
        vstd::utf8::is_ascii_chars(s),
    ensures
        vstd::utf8::is_ascii_chars(trimmed_start(s)),
    decreases s.len(),
{
    if s.len() > 0 && white(s[0]) {
        assert forall|i: int| 0 <= i < s.skip(1).len() implies 0 <= (
        #[trigger] s.skip(1)[i]) as u32 <= 127 by {
            assert(s.skip(1)[i] == s[i + 1]);
        }
        lemma_trimmed_start_ascii(s.skip(1));
    }
}

proof fn lemma_trimmed_end_ascii(s: Seq<char>)
    requires
        vstd::utf8::is_ascii_chars(s),
    ensures
        vstd::utf8::is_ascii_chars(trimmed_end(s)),
    decreases s.len(),
{
    if s.len() > 0 && white(s.last()) {
        assert forall|i: int| 0 <= i < s.drop_last().len() implies 0 <= (
        #[trigger] s.drop_last()[i]) as u32 <= 127 by {
            assert(s.drop_last()[i] == s[i]);
        }
        lemma_trimmed_end_ascii(s.drop_last());
    }
}

/// What is left of an ASCII text after trimming is ASCII.
pub proof fn lemma_trimmed_ascii(s: Seq<char>)
    requires
        vstd::utf8::is_ascii_chars(s),
    ensures
        vstd::utf8::is_ascii_chars(trimmed(s)),
{
    lemma_trimmed_start_ascii(s);
    lemma_trimmed_end_ascii(trimmed_start(s));
}

// ---- numerals ------------------------------------------------------------

/// The character of a digit below sixteen, letters in lower case.
pub open spec fn digit_char(d: nat) -> char {
    if d < 10 {
        ((0x30 + d) as u32) as char
    } else {
        ((0x57 + d) as u32) as char
    }
}

/// The character of a digit below sixteen.
pub fn digit(d: u8) -> (r: char)
    requires
        d < 16,
    ensures
        r == digit_char(d as nat),
{
    if d < 10 {
        (0x30 + d) as char
    } else {
        (0x57 + d) as char
    }
}

/// The numeral of `n` in the given base, without leading zeros.
pub open spec fn numeral(n: nat, base: nat) -> Seq<char>
    decreases n,
    when base >= 2
{
    if n < base {
        seq![digit_char(n)]
    } else {
        proof {
            assert(n / base < n) by (nonlinear_arith)
                requires
                    n >= base,
                    base >= 2,
            ;
        }
        numeral(n / base, base).push(digit_char(n % base))
    }
}

/// The decimal numeral of `n`.
pub open spec fn decimal_text(n: nat) -> Seq<char> {
    numeral(n, 10)
}

/// The hexadecimal numeral of `n`, with zeros in front up to `width` digits.
pub open spec fn hex_text(n: nat, width: nat) -> Seq<char> {
    zeros((width - numeral(n, 16).len()) as int) + numeral(n, 16)
}

/// `n` zeros; none where `n` is not positive.
pub open spec fn zeros(n: int) -> Seq<char> {
    Seq::new(if n > 0 { n as nat } else { 0 }, |i: int| '0')
}

/// The decimal numeral of `n`.
pub fn decimal(n: u64) -> (r: String)
    ensures
        r@ == decimal_text(n as nat),
    decreases n,
{
    let mut out = if n < 10 {
        String::new()
    } else {
        decimal(n / 10)
    };
    out.push(digit((n % 10) as u8));
    assert(out@ == decimal_text(n as nat));
    out
}

/// The decimal numeral of `n`, with a minus sign where it is negative.
pub open spec fn signed_text(n: int) -> Seq<char> {
    if n < 0 {
        seq!['-'] + decimal_text((-n) as nat)
    } else {
        decimal_text(n as nat)
    }
}

/// The decimal numeral of `n`, with a minus sign where it is negative.
pub fn signed_decimal(n: i64) -> (r: String)
    ensures
        r@ == signed_text(n as int),
{
    if n >= 0 {
        decimal(n as u64)
    } else {
        let mut out = String::new();
        out.push('-');
        let m: u64 = (-(n as i128)) as u64;
        let tail = decimal(m);
        out.append(tail.as_str());
        assert(out@ == seq!['-'] + decimal_text((-(n as int)) as nat));
        out
    }
}

fn hex_unpadded(n: u64) -> (r: String)
    ensures
        r@ == numeral(n as nat, 16),
    decreases n,
{
    let mut out = if n < 16 {
        String::new()
    } else {
        hex_unpadded(n / 16)
    };
    out.push(digit((n % 16) as u8));
    assert(out@ == numeral(n as nat, 16));
    out
}

/// Fills a text up to `width` with zeros in front.
fn padded(body: &str, width: usize) -> (r: String)
    ensures
        r@ == zeros(width - body@.len()) + body@,
{
    let len: usize = body.unicode_len();
    let mut out = String::new();
    let mut i: usize = len;
    while i < width
        invariant
            len <= i,
            i <= width || i == len,
            out@ == zeros(i - len),
        decreases width - i,
    {
        out.push('0');
        i += 1;
        assert(zeros(i - len) == zeros(i - 1 - len).push('0'));
    }
    out.append(body);
    out
}

/// Writes a number in hexadecimal, with at least `width` digits.
pub fn hex(n: u64, width: usize) -> (r: String)
    ensures
        r@ == hex_text(n as nat, width as nat),
{
    let body = hex_unpadded(n);
    padded(body.as_str(), width)
}

/// A number in decimal, with at least `width` digits.
pub open spec fn padded_text(n: nat, width: nat) -> Seq<char> {
    zeros((width - decimal_text(n).len()) as int) + decimal_text(n)
}

/// Writes a number in decimal, with at least `width` digits.
pub fn padded_decimal(n: u64, width: usize) -> (r: String)
    ensures
        r@ == padded_text(n as nat, width as nat),
{
    let body = decimal(n);
    padded(body.as_str(), width)
}

/// The value of one hexadecimal digit; 0 for other characters.
pub open spec fn digit_value(c: char) -> nat {
    let n = c as u32;
    if 0x30 <= n <= 0x39 {
        (n - 0x30) as nat
    } else if 0x61 <= n <= 0x66 {
        (n - 0x57) as nat
    } else if 0x41 <= n <= 0x46 {
        (n - 0x37) as nat
    } else {
        0
    }
}

/// The number that a text of hexadecimal digits stands for.
pub open spec fn hex_value(s: Seq<char>) -> nat
    decreases s.len(),
{
    if s.len() == 0 {
        0
    } else {
        16 * hex_value(s.drop_last()) + digit_value(s.last())
    }
}

/// Whether `c` is one of `0`-`9`, `a`-`f` and `A`-`F`.
pub open spec fn hex_digit(c: char) -> bool {
    let n = c as u32;
    ||| 0x30 <= n <= 0x39
    ||| 0x61 <= n <= 0x66
    ||| 0x41 <= n <= 0x46
}

/// Whether `s` is made of hexadecimal digits alone.
pub open spec fn all_hex(s: Seq<char>) -> bool {
    forall|i: int| 0 <= i < s.len() ==> hex_digit(#[trigger] s[i])
}

/// Whether `c` is a hexadecimal digit.
pub fn is_hex_digit(c: char) -> (r: bool)
    ensures
        r == hex_digit(c),
{
    let n: u32 = c as u32;
    (0x30 <= n && n <= 0x39) || (0x61 <= n && n <= 0x66) || (0x41 <= n && n <= 0x46)
}

proof fn lemma_numeral_hex(n: nat)
    ensures
        all_hex(numeral(n, 16)),
        numeral(n, 16).len() > 0,
        hex_value(numeral(n, 16)) == n,
    decreases n,
{
    if n < 16 {
        let s = numeral(n, 16);
        assert(s.drop_last() == Seq::<char>::empty());
        assert(hex_value(s.drop_last()) == 0);
    } else {
        lemma_numeral_hex(n / 16);
        let s = numeral(n, 16);
        assert(s.drop_last() == numeral(n / 16, 16));
    }
}

proof fn lemma_leading_zeros(k: nat, s: Seq<char>)
    ensures
        hex_value(zeros(k as int) + s) == hex_value(s),
    decreases s.len(), k,
{
    if s.len() > 0 {
        lemma_leading_zeros(k, s.drop_last());
        assert((zeros(k as int) + s).drop_last() == zeros(k as int) + s.drop_last());
    } else if k > 0 {
        lemma_leading_zeros((k - 1) as nat, s);
        assert((zeros(k as int) + s).drop_last() == zeros(k - 1) + s);
    }
}

/// A hexadecimal numeral is not empty, holds hexadecimal digits alone, and
/// stands for the number that it was written from, whatever the padding.
pub proof fn hex_text_reads_back(n: nat, width: nat)
    ensures
        hex_text(n, width).len() > 0,
        all_hex(hex_text(n, width)),
        hex_value(hex_text(n, width)) == n,
{
    lemma_numeral_hex(n);
    let k = width - numeral(n, 16).len();
    let z = zeros(k as int);
    lemma_leading_zeros(z.len(), numeral(n, 16));
    assert(zeros(z.len() as int) == z);
    assert forall|i: int| 0 <= i < hex_text(n, width).len() implies hex_digit(
        #[trigger] hex_text(n, width)[i],
    ) by {
        if i >= z.len() {
            assert(hex_text(n, width)[i] == numeral(n, 16)[i - z.len()]);
        }
    }
}

/// Whether a character is one of `0` to `9` and `a` to `f`.
pub open spec fn lower_hex_digit(c: char) -> bool {
    0x30 <= c as u32 <= 0x39 || 0x61 <= c as u32 <= 0x66
}

/// A byte takes exactly two hexadecimal digits, in lower case.
pub proof fn byte_takes_two_digits(n: nat)
    requires
        n < 256,
    ensures
        hex_text(n, 2).len() == 2,
        lower_hex_digit(hex_text(n, 2)[0]),
        lower_hex_digit(hex_text(n, 2)[1]),
{
    if n >= 16 {
        assert(numeral(n / 16, 16) == seq![digit_char(n / 16)]);
        assert(numeral(n, 16) =~= seq![digit_char(n / 16), digit_char(n % 16)]);
    } else {
        assert(hex_text(n, 2) =~= seq!['0', digit_char(n)]);
    }
}

/// Whether `a` comes before `b` in the order of `str`: by the first character
/// in which they differ, a prefix before what it starts.
pub open spec fn earlier(a: Seq<char>, b: Seq<char>) -> bool
    decreases a.len(),
{
    if b.len() == 0 {
        false
    } else if a.len() == 0 {
        true
    } else if a[0] != b[0] {
        (a[0] as int) < (b[0] as int)
    } else {
        earlier(a.skip(1), b.skip(1))
    }
}

pub proof fn lemma_earlier_irreflexive(a: Seq<char>)
    ensures
        !earlier(a, a),
    decreases a.len(),
{
    if a.len() > 0 {
        lemma_earlier_irreflexive(a.skip(1));
    }
}

pub proof fn lemma_earlier_total(a: Seq<char>, b: Seq<char>)
    ensures
        a == b || earlier(a, b) || earlier(b, a),
    decreases a.len(),
{
    if a.len() > 0 && b.len() > 0 && a[0] == b[0] {
        lemma_earlier_total(a.skip(1), b.skip(1));
        if a.skip(1) == b.skip(1) {
            assert(a == seq![a[0]] + a.skip(1));
            assert(b == seq![b[0]] + b.skip(1));
        }
    } else if a.len() == 0 && b.len() == 0 {
        assert(a == b);
    }
}

pub proof fn lemma_earlier_transitive(a: Seq<char>, b: Seq<char>, c: Seq<char>)
    requires
        earlier(a, b),
        earlier(b, c),
    ensures
        earlier(a, c),
    decreases a.len(),
{
    if a.len() > 0 && a[0] == b[0] && b[0] == c[0] {
        lemma_earlier_transitive(a.skip(1), b.skip(1), c.skip(1));
    }
}

/// Whether `a` comes before `b` in the order of `str`.
pub fn is_earlier(a: &str, b: &str) -> (r: bool)
    ensures
        r == earlier(a@, b@),
{
    let x = chars_of(a);
    let y = chars_of(b);
    let mut i: usize = 0;
    assert(a@.skip(0) == a@ && b@.skip(0) == b@);
    while i < x.len() && i < y.len() && x[i] == y[i]
        invariant
            x@ == a@,
            y@ == b@,
            i <= x@.len(),
            i <= y@.len(),
            earlier(a@, b@) == earlier(a@.skip(i as int), b@.skip(i as int)),
        decreases x@.len() - i,
    {
        assert(a@.skip(i as int).skip(1) == a@.skip(i + 1));
        assert(b@.skip(i as int).skip(1) == b@.skip(i + 1));
        i += 1;
    }
    if i >= y.len() {
        false
    } else if i >= x.len() {
        true
    } else {
        x[i] < y[i]
    }
}

} // verus!
