//! Ids that tie the events of one spoken turn together.

use crate::clock;
use crate::text;
use vstd::prelude::*;

verus! {

/// The id of a spoken turn, of the form `<hex>-<hex>`.
///
/// It is made when the turn begins and copied onto every event of the turn.
/// Events without one are valid.
#[derive(Debug, Clone, PartialEq, Eq, Hash)]
pub struct TurnId(pub String);

/// Numbers the ids that are made, so that two made in the same millisecond
/// differ.
#[derive(Debug, Clone, Copy)]
pub struct TurnSeq {
    /// The number of the next id.
    pub next: u32,
}

impl TurnSeq {
    /// Begins at zero.
    pub fn new() -> (r: Self)
        ensures
            r.next == 0,
    {
        TurnSeq { next: 0 }
    }

    /// Takes a number; after the greatest comes zero again.
    pub fn take(&mut self) -> (r: u32)
        ensures
            r == old(self).next,
            final(self).next == (if old(self).next == u32::MAX {
                0
            } else {
                (old(self).next + 1) as u32
            }),
    {
        let r: u32 = self.next;
        self.next = r.wrapping_add(1);
        r
    }
}

/// Whether a text is one or more hexadecimal digits, a dash, and one or more
/// hexadecimal digits.
pub open spec fn turn_form(s: Seq<char>) -> bool {
    exists|d: int| #[trigger] dash_at(s, d)
}

/// Whether the dash of an id is at `d`.
pub open spec fn dash_at(s: Seq<char>, d: int) -> bool {
    &&& 0 < d < s.len() - 1
    &&& s[d] == '-'
    &&& text::all_hex(s.take(d))
    &&& text::all_hex(s.skip(d + 1))
}

/// The id made at `ms` milliseconds under the number `seq`.
pub open spec fn minted(ms: u64, seq: u32) -> Seq<char> {
    text::hex_text(ms as nat, 13) + seq!['-'] + text::hex_text(seq as nat, 4)
}

/// Whether all of the characters from `from` up to `to` are hexadecimal
/// digits.
fn hex_between(chars: &Vec<char>, from: usize, to: usize) -> (r: bool)
    requires
        from <= to <= chars@.len(),
    ensures
        r == text::all_hex(chars@.subrange(from as int, to as int)),
{
    let mut i: usize = from;
    while i < to
        invariant
            from <= i <= to <= chars@.len(),
            forall|k: int| from <= k < i ==> text::hex_digit(#[trigger] chars@[k]),
        decreases to - i,
    {
        if !text::is_hex_digit(chars[i]) {
            assert(chars@.subrange(from as int, to as int)[i - from] == chars@[i as int]);
            return false;
        }
        i += 1;
    }
    true
}

impl TurnId {
    /// Makes a fresh id from the clock and the next number.
    pub fn mint(seq: &mut TurnSeq) -> (r: Self)
        ensures
            exists|millis: Option<u128>| #[trigger]
                clock::may_read(millis) && r.0@ == minted(
                    clock::reading(millis, 0),
                    old(seq).next,
                ),
            final(seq).next == (if old(seq).next == u32::MAX {
                0
            } else {
                (old(seq).next + 1) as u32
            }),
    {
        let millis = clock::millis();
        let n: u32 = seq.take();
        TurnId::mint_at(millis, n)
    }

    /// The id made at a reading of the clock, under a number. A clock set
    /// before the Unix epoch reads as zero.
    pub fn mint_at(millis: Option<u128>, seq: u32) -> (r: Self)
        ensures
            r.0@ == minted(clock::reading(millis, 0), seq),
    {
        let ms: u64 = clock::reading_of(millis, 0);
        let mut id = text::hex(ms, 13);
        id.push('-');
        id.append(text::hex(seq as u64, 4).as_str());
        proof {
            assert(id@ == minted(ms, seq));
        }
        TurnId(id)
    }

    /// Reads an id; `None` where the text is not of the form `<hex>-<hex>`.
    pub fn parse(s: &str) -> (r: Option<Self>)
        ensures
            match r {
                Some(id) => turn_form(s@) && id.0@ == s@,
                None => !turn_form(s@),
            },
    {
        let v = text::chars_of(s);
        let n: usize = v.len();
        let mut d: usize = 0;
        while d < n && v[d] != '-'
            invariant
                n == v@.len(),
                d <= n,
                v@ == s@,
                forall|k: int| 0 <= k < d ==> (#[trigger] v@[k]) != '-',
            decreases n - d,
        {
            d += 1;
        }
        proof {
            assert forall|e: int| #[trigger] dash_at(s@, e) implies e == d by {
                if e > d {
                    assert(s@.take(e)[d as int] == '-');
                }
            }
        }
        if d >= n || d == 0 || d + 1 >= n {
            return None;
        }
        assert(s@.take(d as int) == s@.subrange(0, d as int));
        assert(s@.skip(d as int + 1) == s@.subrange(d as int + 1, n as int));
        if hex_between(&v, 0, d) && hex_between(&v, d + 1, n) {
            assert(dash_at(s@, d as int));
            Some(TurnId(s.to_owned()))
        } else {
            None
        }
    }

    /// The text of the id.
    pub fn as_str(&self) -> (r: &str)
        ensures
            r@ == self.0@,
    {
        self.0.as_str()
    }
}

/// Every id that is made can be read back.
pub proof fn minted_id_parses(ms: u64, seq: u32)
    ensures
        turn_form(minted(ms, seq)),
{
    let a = text::hex_text(ms as nat, 13);
    let b = text::hex_text(seq as nat, 4);
    text::hex_text_reads_back(ms as nat, 13);
    text::hex_text_reads_back(seq as nat, 4);
    let s = minted(ms, seq);
    assert(s.take(a.len() as int) == a);
    assert(s.skip(a.len() as int + 1) == b);
    assert(dash_at(s, a.len() as int));
}

/// Two ids differ if their numbers or their times differ.
pub proof fn minted_ids_differ(ms_a: u64, seq_a: u32, ms_b: u64, seq_b: u32)
    requires
        seq_a != seq_b || ms_a != ms_b,
    ensures
        minted(ms_a, seq_a) != minted(ms_b, seq_b),
{
    let a = text::hex_text(ms_a as nat, 13);
    let b = text::hex_text(ms_b as nat, 13);
    text::hex_text_reads_back(ms_a as nat, 13);
    text::hex_text_reads_back(seq_a as nat, 4);
    text::hex_text_reads_back(ms_b as nat, 13);
    text::hex_text_reads_back(seq_b as nat, 4);
    let s = minted(ms_a, seq_a);
    let t = minted(ms_b, seq_b);
    if s == t {
        assert(s[a.len() as int] == '-');
        assert(t[b.len() as int] == '-');
        if a.len() < b.len() {
            assert(t[a.len() as int] == b[a.len() as int]);
        } else if b.len() < a.len() {
            assert(s[b.len() as int] == a[b.len() as int]);
        }
        assert(s.take(a.len() as int) == a);
        assert(t.take(b.len() as int) == b);
        assert(s.skip(a.len() as int + 1) == text::hex_text(seq_a as nat, 4));
        assert(t.skip(b.len() as int + 1) == text::hex_text(seq_b as nat, 4));
    }
}

} // verus!
