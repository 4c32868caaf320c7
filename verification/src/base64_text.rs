//! Base64 text with the standard alphabet and padding.

use base64::engine::general_purpose::STANDARD;
use base64::Engine;
use vstd::prelude::*;

verus! {

/// The symbol that stands for six bits.
pub open spec fn symbol(n: int) -> char {
    if n < 26 {
        (65 + n) as char
    } else if n < 52 {
        (71 + n) as char
    } else if n < 62 {
        (n - 4) as char
    } else if n == 62 {
        '+'
    } else {
        '/'
    }
}

/// The six bits that a symbol stands for.
pub open spec fn symbol_value(c: char) -> int {
    let n = c as int;
    if 65 <= n <= 90 {
        n - 65
    } else if 97 <= n <= 122 {
        n - 71
    } else if 48 <= n <= 57 {
        n + 4
    } else if c == '+' {
        62
    } else {
        63
    }
}

/// The text of a byte string: four symbols for each three bytes, the last
/// group filled up with `=`.
pub open spec fn base64_text(b: Seq<u8>) -> Seq<char>
    decreases b.len(),
{
    if b.len() == 0 {
        Seq::empty()
    } else if b.len() == 1 {
        seq![symbol(b[0] as int / 4), symbol((b[0] as int % 4) * 16), '=', '=']
    } else if b.len() == 2 {
        seq![
            symbol(b[0] as int / 4),
            symbol((b[0] as int % 4) * 16 + b[1] as int / 16),
            symbol((b[1] as int % 16) * 4),
            '=',
        ]
    } else {
        seq![
            symbol(b[0] as int / 4),
            symbol((b[0] as int % 4) * 16 + b[1] as int / 16),
            symbol((b[1] as int % 16) * 4 + b[2] as int / 64),
            symbol(b[2] as int % 64),
        ] + base64_text(b.skip(3))
    }
}

/// What `base64` says of a text that it does not decode.
pub uninterp spec fn base64_fault(payload: Seq<char>) -> Seq<char>;

/// `base64::engine::general_purpose::STANDARD.decode`: the bytes whose text
/// this is, with all of its padding and no stray bits; an error, given here as
/// its message, for every other text. The message depends on the text alone.
#[verifier::external_body]
fn standard_decode(payload: &str) -> (r: Result<Vec<u8>, String>)
    ensures
        match r {
            Ok(b) => payload@ == base64_text(b@),
            Err(why) => why@ == base64_fault(payload@) && forall|b: Seq<u8>|
                payload@ != #[trigger] base64_text(b),
        },
{
    STANDARD.decode(payload.as_bytes()).map_err(|e| e.to_string())
}

proof fn lemma_symbol(n: int)
    requires
        0 <= n < 64,
    ensures
        symbol_value(symbol(n)) == n,
        symbol(n) != '=',
{
}

/// No two byte strings have the same text.
pub proof fn base64_text_is_unambiguous(a: Seq<u8>, b: Seq<u8>)
    requires
        base64_text(a) == base64_text(b),
    ensures
        a == b,
    decreases a.len(),
{
    let s = base64_text(a);
    let t = base64_text(b);
    assert(a.len() == 0 <==> s.len() == 0);
    assert(b.len() == 0 <==> t.len() == 0);
    if a.len() == 0 {
        assert(a =~= b);
    } else {
        lemma_first_group(a);
        lemma_first_group(b);
        assert(s[2] == t[2] && s[3] == t[3]);
        assert((a.len() == 1) == (b.len() == 1));
        assert((a.len() == 2) == (b.len() == 2));
        if a.len() >= 3 {
            assert(s.skip(4) =~= base64_text(a.skip(3)));
            assert(t.skip(4) =~= base64_text(b.skip(3)));
            base64_text_is_unambiguous(a.skip(3), b.skip(3));
            assert(a =~= seq![a[0], a[1], a[2]] + a.skip(3));
            assert(b =~= seq![b[0], b[1], b[2]] + b.skip(3));
        } else {
            assert(a =~= b);
        }
    }
}

proof fn lemma_first_group(a: Seq<u8>)
    requires
        a.len() > 0,
    ensures
        ({
            let s = base64_text(a);
            &&& s.len() >= 4
            &&& (s[2] == '=') == (a.len() == 1)
            &&& (s[3] == '=') == (a.len() <= 2)
            &&& a[0] == symbol_value(s[0]) * 4 + symbol_value(s[1]) / 16
            &&& a.len() >= 2 ==> a[1] == (symbol_value(s[1]) % 16) * 16 + symbol_value(s[2]) / 4
            &&& a.len() >= 3 ==> a[2] == (symbol_value(s[2]) % 4) * 64 + symbol_value(s[3])
        }),
{
    let x = a[0] as int;
    lemma_symbol(x / 4);
    if a.len() == 1 {
        lemma_symbol((x % 4) * 16);
    } else {
        let y = a[1] as int;
        lemma_symbol((x % 4) * 16 + y / 16);
        if a.len() == 2 {
            lemma_symbol((y % 16) * 4);
        } else {
            let z = a[2] as int;
            lemma_symbol((y % 16) * 4 + z / 64);
            lemma_symbol(z % 64);
        }
    }
}

/// The bytes whose text this is, if there are any.
pub open spec fn base64_bytes(payload: Seq<char>) -> Option<Seq<u8>> {
    if exists|b: Seq<u8>| payload == #[trigger] base64_text(b) {
        Some(choose|b: Seq<u8>| payload == #[trigger] base64_text(b))
    } else {
        None
    }
}

/// Decoding gives back every byte string from its text.
pub proof fn base64_round_trip(b: Seq<u8>)
    ensures
        base64_bytes(base64_text(b)) == Some(b),
{
    let c = choose|c: Seq<u8>| base64_text(b) == #[trigger] base64_text(c);
    base64_text_is_unambiguous(b, c);
}

/// The bytes whose text this is, or why there are none.
pub fn decode(payload: &str) -> (r: Result<Vec<u8>, String>)
    ensures
        match r {
            Ok(b) => base64_bytes(payload@) == Some(b@),
            Err(why) => base64_bytes(payload@) is None && why@ == base64_fault(payload@),
        },
{
    let r = standard_decode(payload);
    if let Ok(b) = &r {
        proof {
            base64_round_trip(b@);
        }
    }
    r
}

} // verus!
