//! Texts: trimming, splitting, cutting, ordering, and numbers written out.

use crate::paths;
use crate::text;
use vstd::prelude::*;

verus! {

// ---- white space ---------------------------------------------------------

/// White space is the tab, the line and page breaks, the space, and the spaces
/// that are wider or narrower than it.
pub proof fn white_space_is_listed(c: char)
    ensures
        text::white(c) <==> seq![
            '\t',
            '\n',
            '\u{b}',
            '\u{c}',
            '\r',
            ' ',
            '\u{85}',
            '\u{a0}',
            '\u{1680}',
            '\u{2000}',
            '\u{2001}',
            '\u{2002}',
            '\u{2003}',
            '\u{2004}',
            '\u{2005}',
            '\u{2006}',
            '\u{2007}',
            '\u{2008}',
            '\u{2009}',
            '\u{200a}',
            '\u{2028}',
            '\u{2029}',
            '\u{202f}',
            '\u{205f}',
            '\u{3000}',
        ].contains(c),
{
    let list = seq![
        '\t',
        '\n',
        '\u{b}',
        '\u{c}',
        '\r',
        ' ',
        '\u{85}',
        '\u{a0}',
        '\u{1680}',
        '\u{2000}',
        '\u{2001}',
        '\u{2002}',
        '\u{2003}',
        '\u{2004}',
        '\u{2005}',
        '\u{2006}',
        '\u{2007}',
        '\u{2008}',
        '\u{2009}',
        '\u{200a}',
        '\u{2028}',
        '\u{2029}',
        '\u{202f}',
        '\u{205f}',
        '\u{3000}',
    ];
    if text::white(c) {
        let n = c as u32;
        let at: int = if n <= 0xd {
            n - 9
        } else if n == 0x20 {
            5
        } else if n == 0x85 {
            6
        } else if n == 0xa0 {
            7
        } else if n == 0x1680 {
            8
        } else if n <= 0x200a {
            n - 0x2000 + 9
        } else if n == 0x2028 {
            20
        } else if n == 0x2029 {
            21
        } else if n == 0x202f {
            22
        } else if n == 0x205f {
            23
        } else {
            24
        };
        assert(list[at] == c);
    }
    if list.contains(c) {
        let at = choose|at: int| 0 <= at < list.len() && list[at] == c;
        assert(text::white(list[at]));
    }
}

/// Whether `r` is what stands in `s` from `i` up to `j`, with nothing but white
/// space around it.
pub open spec fn inside(s: Seq<char>, i: int, j: int, r: Seq<char>) -> bool {
    &&& 0 <= i <= j <= s.len()
    &&& r == s.subrange(i, j)
    &&& text::all_white(s.subrange(0, i))
    &&& text::all_white(s.subrange(j, s.len() as int))
}

/// Trimming takes white space off both ends, all of it, and nothing else.
pub proof fn trimming_takes_white_space_off_the_ends(s: Seq<char>)
    ensures
        exists|i: int, j: int| #[trigger] inside(s, i, j, text::trimmed(s)),
        text::trimmed(s).len() > 0 ==> !text::white(text::trimmed(s)[0]) && !text::white(
            text::trimmed(s).last(),
        ),
{
    let i = lemma_start(s);
    let t = text::trimmed_start(s);
    let k = lemma_end(t);
    let r = text::trimmed(s);
    assert(r =~= s.subrange(i, i + k));
    assert forall|x: int| 0 <= x < s.len() - (i + k) implies text::white(
        #[trigger] s.subrange(i + k, s.len() as int)[x],
    ) by {
        assert(s.subrange(i + k, s.len() as int)[x] == t.subrange(k, t.len() as int)[x]);
    }
    assert(inside(s, i, i + k, r));
    text::lemma_trimmed_last(s);
    if r.len() > 0 {
        assert(r[0] == t[0]);
    }
}

proof fn lemma_start(s: Seq<char>) -> (i: int)
    ensures
        0 <= i <= s.len(),
        text::trimmed_start(s) == s.subrange(i, s.len() as int),
        text::all_white(s.subrange(0, i)),
        i < s.len() ==> !text::white(s[i]),
    decreases s.len(),
{
    if s.len() > 0 && text::white(s[0]) {
        let i = lemma_start(s.skip(1));
        assert(text::trimmed_start(s) =~= s.subrange(i + 1, s.len() as int));
        assert forall|x: int| 0 <= x < i + 1 implies text::white(
            #[trigger] s.subrange(0, i + 1)[x],
        ) by {
            if x > 0 {
                assert(s.skip(1).subrange(0, i)[x - 1] == s[x]);
            }
        }
        i + 1
    } else {
        assert(s.subrange(0, s.len() as int) =~= s);
        0
    }
}

proof fn lemma_end(s: Seq<char>) -> (k: int)
    ensures
        0 <= k <= s.len(),
        text::trimmed_end(s) == s.subrange(0, k),
        text::all_white(s.subrange(k, s.len() as int)),
    decreases s.len(),
{
    if s.len() > 0 && text::white(s.last()) {
        let k = lemma_end(s.drop_last());
        assert(text::trimmed_end(s) =~= s.subrange(0, k));
        assert forall|x: int| 0 <= x < s.len() - k implies text::white(
            #[trigger] s.subrange(k, s.len() as int)[x],
        ) by {
            if x < s.len() - k - 1 {
                assert(s.drop_last().subrange(k, s.len() - 1)[x] == s[k + x]);
            }
        }
        k
    } else {
        assert(s.subrange(0, s.len() as int) =~= s);
        s.len() as int
    }
}

/// Whether no character is white space.
pub open spec fn no_white(s: Seq<char>) -> bool {
    forall|i: int| 0 <= i < s.len() ==> !text::white(#[trigger] s[i])
}

/// A text is split at its white space: a word that stands in front is the first
/// word, white space in front does not matter, and a text without white space is
/// one word.
pub proof fn words_are_split_at_white_space(word: Seq<char>, gap: Seq<char>, rest: Seq<char>)
    requires
        word.len() > 0,
        no_white(word),
        gap.len() > 0,
        text::all_white(gap),
    ensures
        text::words(word + gap + rest) == seq![word] + text::words(rest),
        text::words(gap + rest) == text::words(rest),
        text::words(word) == seq![word],
        text::words(gap) == Seq::<Seq<char>>::empty(),
        text::words(Seq::empty()) == Seq::<Seq<char>>::empty(),
{
    lemma_gap(gap, rest);
    lemma_gap(gap, Seq::empty());
    assert(gap + Seq::<char>::empty() =~= gap);
    lemma_word(word, Seq::empty());
    assert(word + Seq::<char>::empty() =~= word);
    let s = word + (gap + rest);
    assert(word + gap + rest =~= s);
    assert((gap + rest)[0] == gap[0]);
    lemma_word(word, gap + rest);
    assert(s.take(word.len() as int) =~= word);
    assert(s.skip(word.len() as int) =~= gap + rest);
    assert(s[0] == word[0]);
    assert(s.len() > word.len());
}

proof fn lemma_gap(gap: Seq<char>, rest: Seq<char>)
    requires
        text::all_white(gap),
    ensures
        text::words(gap + rest) == text::words(rest),
    decreases gap.len(),
{
    if gap.len() == 0 {
        assert(gap + rest =~= rest);
    } else {
        assert((gap + rest)[0] == gap[0]);
        assert((gap + rest).skip(1) =~= gap.skip(1) + rest);
        lemma_gap(gap.skip(1), rest);
    }
}

proof fn lemma_word(word: Seq<char>, rest: Seq<char>)
    requires
        no_white(word),
        rest.len() > 0 ==> text::white(rest[0]),
    ensures
        text::word_len(word + rest) == word.len(),
    decreases word.len(),
{
    if word.len() == 0 {
        assert(word + rest =~= rest);
    } else {
        assert((word + rest)[0] == word[0]);
        assert((word + rest).skip(1) =~= word.skip(1) + rest);
        lemma_word(word.skip(1), rest);
    }
}

// ---- cutting -------------------------------------------------------------

/// The first characters of a text are its beginning, as long as allowed.
pub proof fn first_characters_are_the_beginning(s: Seq<char>, max: nat)
    ensures
        text::first_chars(s, max).is_prefix_of(s),
        text::first_chars(s, max).len() <= max,
        text::first_chars(s, max).len() < max ==> text::first_chars(s, max) == s,
{
}

/// The first bytes of a text are the longest beginning of it that takes no more
/// bytes than allowed: with one more character it would take more.
pub proof fn first_bytes_are_the_longest_beginning(s: Seq<char>, max: nat)
    ensures
        text::first_bytes(s, max).is_prefix_of(s),
        vstd::utf8::encode_utf8(text::first_bytes(s, max)).len() <= max,
        text::first_bytes(s, max).len() < s.len() ==> vstd::utf8::encode_utf8(
            s.take(text::first_bytes(s, max).len() as int + 1),
        ).len() > max,
    decreases s.len(),
{
    let r = text::first_bytes(s, max);
    reveal_with_fuel(vstd::utf8::encode_utf8, 2);
    if s.len() == 0 {
    } else {
        lemma_width(s[0]);
        if text::utf8_width(s[0]) > max {
            assert(r.is_prefix_of(s));
            assert(s.take(1)[0] == s[0]);
            assert(s.take(1).drop_first() =~= Seq::<char>::empty());
        } else {
            let rest: nat = (max - text::utf8_width(s[0])) as nat;
            let t = text::first_bytes(s.skip(1), rest);
            first_bytes_are_the_longest_beginning(s.skip(1), rest);
            assert(r =~= seq![s[0]] + t);
            assert(r.drop_first() =~= t);
            assert forall|i: int| 0 <= i < r.len() implies r[i] == s[i] by {
                if i > 0 {
                    assert(t[i - 1] == s.skip(1)[i - 1]);
                }
            }
            assert(r.is_prefix_of(s)) by {
                assert(s.subrange(0, r.len() as int) =~= r);
            }
            if r.len() < s.len() {
                let more = s.take(r.len() as int + 1);
                assert(more.drop_first() =~= s.skip(1).take(t.len() as int + 1));
                assert(more[0] == s[0]);
            }
        }
    }
}

proof fn lemma_width(c: char)
    ensures
        vstd::utf8::encode_scalar(c as u32).len() == text::utf8_width(c),
{
}

/// A text without the characters `c` at its end: nothing but those is gone, and
/// none of them is left at the end.
pub proof fn trailing_characters_are_taken_off(s: Seq<char>, c: char)
    ensures
        text::without_trailing(s, c).is_prefix_of(s),
        forall|i: int|
            text::without_trailing(s, c).len() <= i < s.len() ==> #[trigger] s[i] == c,
        text::without_trailing(s, c).len() > 0 ==> text::without_trailing(s, c).last() != c,
    decreases s.len(),
{
    if s.len() > 0 && s.last() == c {
        trailing_characters_are_taken_off(s.drop_last(), c);
        let r = text::without_trailing(s, c);
        assert(s.subrange(0, r.len() as int) =~= s.drop_last().subrange(0, r.len() as int));
        assert forall|i: int| r.len() <= i < s.len() implies #[trigger] s[i] == c by {
            if i < s.len() - 1 {
                assert(s.drop_last()[i] == c);
            }
        }
    }
}

// ---- order ---------------------------------------------------------------

/// Of two texts the one whose first differing character is smaller comes first;
/// a text comes before every longer one that begins with it.
pub proof fn first_difference_decides(
    common: Seq<char>,
    x: char,
    after_x: Seq<char>,
    y: char,
    after_y: Seq<char>,
)
    requires
        x != y,
    ensures
        text::earlier(common + seq![x] + after_x, common + seq![y] + after_y) <==> (x as u32) < (
        y as u32),
        text::earlier(common, common + seq![y] + after_y),
        !text::earlier(common + seq![x] + after_x, common),
        !text::earlier(common, common),
    decreases common.len(),
{
    let a = common + seq![x] + after_x;
    let b = common + seq![y] + after_y;
    if common.len() == 0 {
        assert(a[0] == x && b[0] == y);
    } else {
        let tail = common.skip(1);
        first_difference_decides(tail, x, after_x, y, after_y);
        assert(a.skip(1) =~= tail + seq![x] + after_x);
        assert(b.skip(1) =~= tail + seq![y] + after_y);
        assert(a[0] == common[0] && b[0] == common[0]);
    }
}

// ---- case ----------------------------------------------------------------

/// Whether a character is one of the letters from `A` to `Z`.
pub open spec fn capital(c: char) -> bool {
    'A' as u32 <= c as u32 && c as u32 <= 'Z' as u32
}

/// Lowering the case of a text turns each letter from `A` to `Z` into the one
/// that stands at the same place from `a` to `z`, and keeps every other
/// character.
pub proof fn capitals_become_small_letters(s: Seq<char>, i: int)
    requires
        0 <= i < s.len(),
    ensures
        text::ascii_lower(s).len() == s.len(),
        capital(s[i]) ==> text::ascii_lower(s)[i] as u32 - 'a' as u32 == s[i] as u32
            - 'A' as u32,
        !capital(s[i]) ==> text::ascii_lower(s)[i] == s[i],
        vstd::utf8::is_ascii_chars(s) ==> text::lower(s) == text::ascii_lower(s),
        !vstd::utf8::is_ascii_chars(s) ==> text::lower(s) == text::unicode_lowercase(s),
{
    assert(text::ascii_lower(s)[i] == text::ascii_lower_char(s[i]));
}

// ---- numbers -------------------------------------------------------------

/// What a row of decimal digits stands for.
pub open spec fn decimal_value(s: Seq<char>) -> nat
    decreases s.len(),
{
    if s.len() == 0 {
        0
    } else {
        (10 * decimal_value(s.drop_last()) + (s.last() as u32 - '0' as u32)) as nat
    }
}

/// Whether every character is a decimal digit.
pub open spec fn all_decimal(s: Seq<char>) -> bool {
    forall|i: int| 0 <= i < s.len() ==> '0' <= #[trigger] s[i] <= '9'
}

/// A number written out reads back as the number. It has decimal digits only,
/// and begins with a zero only if it is zero.
pub proof fn decimal_text_reads_back(n: nat)
    ensures
        decimal_value(text::decimal_text(n)) == n,
        all_decimal(text::decimal_text(n)),
        text::decimal_text(n).len() > 0,
        n > 0 ==> text::decimal_text(n)[0] != '0',
        n < 10 ==> text::decimal_text(n).len() == 1,
    decreases n,
{
    reveal_with_fuel(text::numeral, 2);
    let s = text::decimal_text(n);
    reveal_with_fuel(decimal_value, 2);
    if n < 10 {
        assert(s =~= seq![text::digit_char(n)]);
        assert(s.drop_last() =~= Seq::<char>::empty());
        assert(s.last() as u32 - '0' as u32 == n);
    } else {
        decimal_text_reads_back(n / 10);
        let t = text::decimal_text(n / 10);
        assert(s == t.push(text::digit_char(n % 10)));
        assert(s.drop_last() =~= t);
        assert(s[0] == t[0]);
        assert(s.last() as u32 - '0' as u32 == n % 10);
    }
}

/// A negative number is written with a minus sign in front, any other as it is.
pub proof fn sign_stands_in_front(n: nat)
    ensures
        text::signed_text(n as int) == text::decimal_text(n),
        n > 0 ==> text::signed_text(-(n as int)) == seq!['-'] + text::decimal_text(n),
{
}

/// A number written with leading zeros reads back as the number. It has at least
/// the width asked for, and a zero in front only to reach it.
pub proof fn padded_text_reads_back(n: nat, width: nat)
    ensures
        decimal_value(text::padded_text(n, width)) == n,
        all_decimal(text::padded_text(n, width)),
        text::padded_text(n, width).len() >= width,
        text::padded_text(n, width).len() > width && width > 0 ==> text::padded_text(n, width)[0]
            != '0',
{
    decimal_text_reads_back(n);
    let t = text::decimal_text(n);
    let k: nat = if width > t.len() {
        (width - t.len()) as nat
    } else {
        0
    };
    lemma_zeros_in_front(k, t);
    assert(text::zeros(width - t.len()) =~= text::zeros(k as int));
    if k == 0 {
        assert(text::padded_text(n, width) =~= t);
    }
}

proof fn lemma_zeros_in_front(k: nat, s: Seq<char>)
    ensures
        decimal_value(text::zeros(k as int) + s) == decimal_value(s),
    decreases s.len(), k,
{
    let z = text::zeros(k as int);
    if s.len() > 0 {
        lemma_zeros_in_front(k, s.drop_last());
        assert((z + s).drop_last() =~= z + s.drop_last());
        assert((z + s).last() == s.last());
    } else if k > 0 {
        let y = text::zeros(k - 1);
        lemma_zeros_in_front((k - 1) as nat, s);
        assert(z + s =~= (y + s).push('0'));
        assert((z + s).drop_last() =~= y + s);
        assert((z + s).last() == '0');
    } else {
        assert(z + s =~= s);
    }
}

/// A number written in hexadecimal has small letters for the digits from ten,
/// at least the width asked for, and a zero in front only to reach it.
pub proof fn hex_text_is_no_longer_than_needed(n: nat, width: nat)
    ensures
        text::hex_value(text::hex_text(n, width)) == n,
        text::hex_text(n, width).len() >= width,
        text::hex_text(n, width).len() > width && width > 0 ==> text::hex_text(n, width)[0] != '0',
        forall|i: int|
            0 <= i < text::hex_text(n, width).len() ==> {
                ||| '0' <= #[trigger] text::hex_text(n, width)[i] <= '9'
                ||| 'a' <= text::hex_text(n, width)[i] <= 'f'
            },
{
    text::hex_text_reads_back(n, width);
    lemma_hex_digits(n);
    let t = text::numeral(n, 16);
    if t.len() >= width {
        assert(text::hex_text(n, width) =~= t);
    }
}

proof fn lemma_hex_digits(n: nat)
    ensures
        text::numeral(n, 16).len() > 0,
        n > 0 ==> text::numeral(n, 16)[0] != '0',
        n < 16 ==> text::numeral(n, 16).len() == 1,
        forall|i: int|
            0 <= i < text::numeral(n, 16).len() ==> {
                ||| '0' <= #[trigger] text::numeral(n, 16)[i] <= '9'
                ||| 'a' <= text::numeral(n, 16)[i] <= 'f'
            },
    decreases n,
{
    reveal_with_fuel(text::numeral, 2);
    let s = text::numeral(n, 16);
    if n >= 16 {
        lemma_hex_digits(n / 16);
        let t = text::numeral(n / 16, 16);
        assert(s == t.push(text::digit_char(n % 16)));
        assert forall|i: int| 0 <= i < s.len() implies {
            ||| '0' <= #[trigger] s[i] <= '9'
            ||| 'a' <= s[i] <= 'f'
        } by {
            if i < t.len() {
                assert(s[i] == t[i]);
            }
        }
    }
}

/// What a hexadecimal digit stands for.
pub proof fn hex_digits_have_their_values(s: Seq<char>, d: nat)
    requires
        d < 16,
    ensures
        text::hex_value(s.push("0123456789abcdef"@[d as int])) == 16 * text::hex_value(s) + d,
        text::hex_value(s.push("0123456789ABCDEF"@[d as int])) == 16 * text::hex_value(s) + d,
        text::hex_value(Seq::empty()) == 0,
        text::all_hex(seq!["0123456789abcdef"@[d as int]]),
        text::all_hex(seq!["0123456789ABCDEF"@[d as int]]),
{
    reveal_strlit("0123456789abcdef");
    reveal_strlit("0123456789ABCDEF");
    let x = "0123456789abcdef"@[d as int];
    let y = "0123456789ABCDEF"@[d as int];
    assert(s.push(x).drop_last() =~= s);
    assert(s.push(y).drop_last() =~= s);
}

/// Only those are hexadecimal digits.
pub proof fn only_those_are_hex_digits(c: char)
    ensures
        text::all_hex(seq![c]) <==> "0123456789abcdefABCDEF"@.contains(c),
{
    reveal_strlit("0123456789abcdefABCDEF");
    let list = "0123456789abcdefABCDEF"@;
    let one = seq![c];
    assert(one[0] == c);
    let n = c as u32;
    if text::all_hex(one) {
        assert(text::hex_digit(one[0]));
        let at: int = if n <= 0x39 {
            n - 0x30
        } else if n >= 0x61 {
            n - 0x61 + 10
        } else {
            n - 0x41 + 16
        };
        assert(list[at] == c);
    }
    if list.contains(c) {
        let at = choose|at: int| 0 <= at < list.len() && list[at] == c;
        assert(text::hex_digit(list[at]));
        assert forall|i: int| 0 <= i < one.len() implies text::hex_digit(#[trigger] one[i]) by {}
    }
}

// ---- paths ---------------------------------------------------------------

/// A relative part goes under a base with one slash between; an absolute one
/// stands for itself.
pub proof fn parts_are_joined_with_one_slash(base: Seq<char>, part: Seq<char>)
    requires
        !seq!['/'].is_prefix_of(part),
        base.len() > 0,
        base.last() != '/',
    ensures
        paths::joined_path(base, part) == base + "/"@ + part,
        paths::joined_path(base + "/"@, part) == base + "/"@ + part,
        paths::joined_path(Seq::empty(), part) == part,
        paths::joined_path(base, "/"@ + part) == "/"@ + part,
{
    reveal_strlit("/");
    assert("/"@ =~= seq!['/']);
    if part.len() > 0 && part[0] == '/' {
        assert(part.subrange(0, 1) =~= seq!['/']);
    }
    assert(Seq::<char>::empty() + part =~= part);
}

/// Whether a character does not occur.
pub open spec fn free_of(s: Seq<char>, c: char) -> bool {
    forall|i: int| 0 <= i < s.len() ==> #[trigger] s[i] != c
}

/// The extension of a file is what stands behind the last dot of its name, in
/// whatever directory it lies. It is a file to be played as mp3 if that reads
/// `mp3` in capital or small letters.
pub proof fn extension_stands_behind_the_last_dot(
    dir: Seq<char>,
    stem: Seq<char>,
    ext: Seq<char>,
)
    requires
        dir.len() == 0 || dir.last() == '/',
        stem.len() > 0,
        free_of(stem, '/'),
        free_of(ext, '/'),
        free_of(ext, '.'),
        ext.len() > 0,
    ensures
        paths::extension(dir + stem + seq!['.'] + ext) == Some(ext),
        paths::mp3_path(dir + stem + seq!['.'] + ext) <==> {
            &&& ext.len() == 3
            &&& ext[0] == 'm' || ext[0] == 'M'
            &&& ext[1] == 'p' || ext[1] == 'P'
            &&& ext[2] == '3'
        },
{
    let p = dir + stem + seq!['.'] + ext;
    let name = stem + seq!['.'] + ext;
    assert(p.last() == ext.last());
    assert(ext.last() != '/' && ext.last() != '.');
    assert(paths::without_trailing_dots(p) == p);
    assert forall|k: int| dir.len() <= k < p.len() implies p[k] != '/' by {
        let m = k - dir.len();
        assert(p[k] == name[m]);
        if m < stem.len() {
            assert(name[m] == stem[m]);
        } else if m > stem.len() {
            assert(name[m] == ext[m - stem.len() - 1]);
        }
    }
    lemma_after_last(p, '/', dir.len() as int);
    assert(p.skip(dir.len() as int) =~= name);
    assert forall|k: int| stem.len() + 1 <= k < name.len() implies name[k] != '.' by {
        assert(name[k] == ext[k - stem.len() - 1]);
    }
    lemma_after_last(name, '.', stem.len() as int + 1);
    assert(name.skip(stem.len() as int + 1) =~= ext);
    assert(name.last() == ext.last());
    assert(name != seq!['.', '.']) by {
        assert(seq!['.', '.'].last() == '.');
    }
    lemma_mp3(ext);
}

proof fn lemma_letter(c: char, capital: char, small: char)
    requires
        'A' as u32 <= capital as u32 <= 'Z' as u32,
        small as u32 == capital as u32 + 32,
    ensures
        text::ascii_lower_char(c) == small <==> c == small || c == capital,
{
    if text::ascii_lower_char(c) == small && c != small {
        assert(small as u32 == c as u32 + 32);
        assert(c as u32 == capital as u32);
        assert(c as u32 as char == capital as u32 as char);
    }
}

proof fn lemma_mp3(ext: Seq<char>)
    ensures
        text::ascii_lower(ext) == "mp3"@ <==> {
            &&& ext.len() == 3
            &&& ext[0] == 'm' || ext[0] == 'M'
            &&& ext[1] == 'p' || ext[1] == 'P'
            &&& ext[2] == '3'
        },
{
    reveal_strlit("mp3");
    let low = text::ascii_lower(ext);
    if ext.len() == 3 {
        lemma_letter(ext[0], 'M', 'm');
        lemma_letter(ext[1], 'P', 'p');
        assert(low[0] == text::ascii_lower_char(ext[0]));
        assert(low[1] == text::ascii_lower_char(ext[1]));
        assert(low[2] == text::ascii_lower_char(ext[2]));
    }
    if low == "mp3"@ {
        assert(low.len() == 3);
        assert(low[0] == 'm' && low[1] == 'p' && low[2] == '3');
        assert(ext[2] == '3') by {
            if ext[2] != '3' {
                assert('3' as u32 == ext[2] as u32 + 32);
            }
        }
    }
    if ext.len() == 3 && (ext[0] == 'm' || ext[0] == 'M') && (ext[1] == 'p' || ext[1] == 'P')
        && ext[2] == '3' {
        assert(low =~= "mp3"@);
    }
}

proof fn lemma_after_last(s: Seq<char>, c: char, i: int)
    requires
        0 <= i <= s.len(),
        i == 0 || s[i - 1] == c,
        forall|k: int| i <= k < s.len() ==> s[k] != c,
    ensures
        paths::after_last(s, c) == s.skip(i),
    decreases s.len(),
{
    if s.len() == 0 {
    } else if i == s.len() {
        assert(s.skip(i) =~= Seq::<char>::empty());
    } else {
        assert(s.drop_last().skip(i).push(s.last()) =~= s.skip(i));
        lemma_after_last(s.drop_last(), c, i);
    }
}

/// A name without a dot, or with none but in front, has no extension: such a
/// file is not played as mp3.
pub proof fn name_without_a_dot_has_no_extension(dir: Seq<char>, name: Seq<char>)
    requires
        dir.len() == 0 || dir.last() == '/',
        name.len() > 0,
        free_of(name, '/'),
        free_of(name, '.'),
    ensures
        paths::extension(dir + name) is None,
        paths::extension(dir + seq!['.'] + name) is None,
        !paths::mp3_path(dir + name),
        !paths::mp3_path(dir + seq!['.'] + name),
{
    let p = dir + name;
    assert(p.last() == name.last());
    assert(paths::without_trailing_dots(p) == p);
    assert forall|k: int| dir.len() <= k < p.len() implies p[k] != '/' by {
        assert(p[k] == name[k - dir.len()]);
    }
    lemma_after_last(p, '/', dir.len() as int);
    assert(p.skip(dir.len() as int) =~= name);
    lemma_after_last(name, '.', 0);
    assert(name.skip(0) =~= name);
    let hidden = seq!['.'] + name;
    let q = dir + seq!['.'] + name;
    assert(q.last() == name.last());
    assert(paths::without_trailing_dots(q) == q);
    assert forall|k: int| dir.len() <= k < q.len() implies q[k] != '/' by {
        if k > dir.len() {
            assert(q[k] == name[k - dir.len() - 1]);
        }
    }
    lemma_after_last(q, '/', dir.len() as int);
    assert(q.skip(dir.len() as int) =~= hidden);
    assert forall|k: int| 1 <= k < hidden.len() implies hidden[k] != '.' by {
        assert(hidden[k] == name[k - 1]);
    }
    lemma_after_last(hidden, '.', 1);
    assert(hidden.skip(1) =~= name);
}

/// A slash behind a path, or a slash and a dot, does not change its extension.
pub proof fn slash_behind_a_path_does_not_count(p: Seq<char>)
    ensures
        paths::extension(p + seq!['/']) == paths::extension(p),
        paths::extension(p + seq!['/', '.']) == paths::extension(p),
        paths::mp3_path(p + seq!['/']) <==> paths::mp3_path(p),
        paths::mp3_path(p + seq!['/', '.']) <==> paths::mp3_path(p),
{
    let one = p + seq!['/'];
    let two = p + seq!['/', '.'];
    assert(one.last() == '/');
    assert(one.drop_last() =~= p);
    assert(two.last() == '.' && two[two.len() - 2] == '/');
    assert(two.drop_last() =~= one);
}

/// The parent directory has no extension.
pub proof fn parent_has_no_extension(dir: Seq<char>)
    requires
        dir.len() == 0 || dir.last() == '/',
    ensures
        paths::extension(dir + seq!['.', '.']) is None,
{
    let p = dir + seq!['.', '.'];
    assert(p.last() == '.' && p[p.len() - 2] == '.');
    assert(paths::without_trailing_dots(p) == p);
    lemma_after_last(p, '/', dir.len() as int);
    assert(p.skip(dir.len() as int) =~= seq!['.', '.']);
}

} // verus!
