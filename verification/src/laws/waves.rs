//! WAV files: what is read of them, and what a gain makes of them.

use crate::single::Single;
use crate::synth;
use crate::wav;
use crate::wav::WavError;
use vstd::prelude::*;

verus! {

/// The four bytes of a number, least first.
pub open spec fn four_bytes(n: nat) -> Seq<u8> {
    seq![
        (n % 0x100) as u8,
        (n / 0x100 % 0x100) as u8,
        (n / 0x1_0000 % 0x100) as u8,
        (n / 0x100_0000 % 0x100) as u8,
    ]
}

/// A chunk as it stands in a file: its name, the length of its body, the body,
/// and a byte to fill up where that length is odd.
pub open spec fn chunk(name: Seq<u8>, body: Seq<u8>, filler: u8) -> Seq<u8> {
    name + four_bytes(body.len()) + body + (if body.len() % 2 == 1 {
        seq![filler]
    } else {
        Seq::empty()
    })
}

/// `fmt ` in ASCII.
pub open spec fn fmt_name() -> Seq<u8> {
    seq![0x66u8, 0x6du8, 0x74u8, 0x20u8]
}

/// `data` in ASCII.
pub open spec fn data_name() -> Seq<u8> {
    seq![0x64u8, 0x61u8, 0x74u8, 0x61u8]
}

/// Whether a file begins with `RIFF`, four bytes and `WAVE`, and whole chunks
/// follow, up to its end.
pub open spec fn whole(b: Seq<u8>) -> bool {
    &&& b.len() >= 12
    &&& b.take(4) == seq![0x52u8, 0x49u8, 0x46u8, 0x46u8]
    &&& b.subrange(8, 12) == seq![0x57u8, 0x41u8, 0x56u8, 0x45u8]
    &&& wav::boundary(b, 12, b.len() as int)
}

/// Sizes in a file are four bytes, least first.
pub proof fn sizes_are_little_endian(b: Seq<u8>, at: int, n: nat)
    requires
        0 <= at,
        at + 4 <= b.len(),
        n < 0x1_0000_0000,
        b.subrange(at, at + 4) == four_bytes(n),
    ensures
        wav::le32(b, at) == n,
{
    let four = b.subrange(at, at + 4);
    assert(four[0] == b[at] && four[1] == b[at + 1] && four[2] == b[at + 2] && four[3] == b[at
        + 3]);
    assert(n == n % 0x100 + 0x100 * (n / 0x100 % 0x100) + 0x1_0000 * (n / 0x1_0000 % 0x100)
        + 0x100_0000 * (n / 0x100_0000 % 0x100)) by (nonlinear_arith)
        requires
            n < 0x1_0000_0000,
    ;
}

/// Only bytes that begin with `RIFF`, four more and `WAVE` are taken for a WAV
/// file.
pub proof fn header_is_riff_wave(b: Seq<u8>)
    ensures
        ({
            let good = b.len() >= 12 && b.take(4) == seq![0x52u8, 0x49u8, 0x46u8, 0x46u8]
                && b.subrange(8, 12) == seq![0x57u8, 0x41u8, 0x56u8, 0x45u8];
            &&& good <==> wav::duration_ms(b) != Err::<u64, WavError>(WavError::NotRiff)
            &&& good <==> wav::data_bytes(b) != Err::<u64, WavError>(WavError::NotRiff)
        }),
{
    if b.len() >= 12 {
        assert(wav::quad(b, 0) =~= b.take(4));
        assert(wav::quad(b, 8) =~= b.subrange(8, 12));
        assert(wav::riff_tag() =~= seq![0x52u8, 0x49u8, 0x46u8, 0x46u8]);
        assert(wav::wave_tag() =~= seq![0x57u8, 0x41u8, 0x56u8, 0x45u8]);
    }
}

/// The playing time of a file is its audio over its byte rate: for every file
/// that has one, `d` milliseconds at `r` bytes a second take no more than the
/// `n` bytes of audio that are told of the same file, and `d + 1` milliseconds
/// take more.
pub proof fn duration_is_audio_over_byte_rate(b: Seq<u8>, d: u64)
    requires
        wav::duration_ms(b) == Ok::<u64, WavError>(d),
    ensures
        wav::data_bytes(b) is Ok,
        exists|fmt: wav::Chunk|
            {
                let r = #[trigger] wav::byte_rate(b, fmt);
                let n = wav::data_bytes(b)->Ok_0;
                &&& wav::last_named(wav::chunks(b, 12), wav::fmt_id()) == Some(fmt)
                &&& r > 0
                &&& d * r <= 1000 * n < (d + 1) * r
            },
{
    let cs = wav::chunks(b, 12);
    let fmt = wav::last_named(cs, wav::fmt_id())->0;
    let data = wav::last_named(cs, wav::data_id())->0;
    let r = wav::byte_rate(b, fmt);
    lemma_size_bound(b, data);
    lemma_quotient(data.size * 1000, r);
    assert(data.size * 1000 / r <= data.size * 1000) by (nonlinear_arith)
        requires
            r > 0,
    ;
    assert(d * r <= 1000 * data.size < (d + 1) * r);
}

proof fn lemma_quotient(n: nat, r: nat)
    requires
        r > 0,
    ensures
        (n / r) * r <= n < (n / r + 1) * r,
{
    vstd::arithmetic::div_mod::lemma_fundamental_div_mod(n as int, r as int);
    vstd::arithmetic::div_mod::lemma_mod_bound(n as int, r as int);
    let q = n / r;
    assert((q + 1) * r == q * r + r) by (nonlinear_arith);
    assert(r * q == q * r) by (nonlinear_arith);
}

proof fn lemma_size_bound(b: Seq<u8>, c: wav::Chunk)
    requires
        wav::last_named(wav::chunks(b, 12), wav::data_id()) == Some(c),
    ensures
        c.size < 0x1_0000_0000,
{
    let cs = wav::chunks(b, 12);
    wav::lemma_last_named_is_one(cs, wav::data_id());
    lemma_sizes(b, 12);
}

proof fn lemma_sizes(b: Seq<u8>, at: int)
    ensures
        forall|i: int|
            0 <= i < wav::chunks(b, at).len() ==> (#[trigger] wav::chunks(b, at)[i]).size
                < 0x1_0000_0000,
    decreases b.len() + 1 - at,
{
    if wav::complete_at(b, at) {
        let next = wav::next_chunk(b, at);
        lemma_sizes(b, next);
        let cs = wav::chunks(b, at);
        assert forall|i: int| 0 <= i < cs.len() implies (#[trigger] cs[i]).size < 0x1_0000_0000 by {
            if i > 0 {
                assert(cs[i] == wav::chunks(b, next)[i - 1]);
            }
        }
    }
}

// ---- files that grow by a chunk ------------------------------------------

proof fn lemma_append(b: Seq<u8>, tail: Seq<u8>, from: int)
    requires
        0 <= from,
        wav::boundary(b, from, b.len() as int),
    ensures
        wav::chunks(b + tail, from) == wav::chunks(b, from) + wav::chunks(
            b + tail,
            b.len() as int,
        ),
        wav::chunks_end(b + tail, from) == wav::chunks_end(b + tail, b.len() as int),
        wav::boundary(b + tail, from, b.len() as int),
        from <= b.len(),
    decreases b.len() + 1 - from,
{
    let c = b + tail;
    if from == b.len() {
        assert(!wav::complete_at(b, from));
        assert(wav::chunks(c, from) =~= Seq::<wav::Chunk>::empty() + wav::chunks(c, from));
    } else {
        let next = wav::next_chunk(b, from);
        lemma_append(b, tail, next);
        assert(forall|i: int| 0 <= i < b.len() ==> c[i] == b[i]);
        assert(wav::le32(c, from + 4) == wav::le32(b, from + 4));
        assert(wav::quad(c, from) == wav::quad(b, from));
        assert(wav::chunk_at(c, from) == wav::chunk_at(b, from));
        assert(wav::chunks(c, from) =~= wav::chunks(b, from) + wav::chunks(c, b.len() as int));
    }
}

proof fn lemma_chunk_stands(b: Seq<u8>, name: Seq<u8>, body: Seq<u8>, filler: u8)
    requires
        name.len() == 4,
        body.len() < 0x1_0000_0000,
    ensures
        ({
            let at = b.len() as int;
            let c = b + chunk(name, body, filler);
            &&& wav::complete_at(c, at)
            &&& wav::next_chunk(c, at) == c.len()
            &&& wav::quad(c, at) == name
            &&& wav::chunks(c, at) == seq![
                (wav::Chunk { id: name, start: at + 8, size: body.len() }),
            ]
            &&& wav::chunks_end(c, at) == c.len()
            &&& wav::boundary(c, at, c.len() as int)
            &&& c.subrange(at + 8, at + 8 + body.len()) == body
        }),
{
    let at = b.len() as int;
    let c = b + chunk(name, body, filler);
    assert(c.subrange(at + 4, at + 8) =~= four_bytes(body.len()));
    sizes_are_little_endian(c, at + 4, body.len());
    assert(wav::quad(c, at) =~= name);
    assert(c.subrange(at + 8, at + 8 + body.len()) =~= body);
    let end = c.len() as int;
    assert(!wav::complete_at(c, end));
    assert(wav::chunks(c, end) =~= Seq::empty());
    assert(wav::chunks(c, at) =~= seq![
        (wav::Chunk { id: name, start: at + 8, size: body.len() }),
    ]);
    assert(wav::boundary(c, end, end));
    assert(wav::complete_at(c, at));
    assert(wav::next_chunk(c, at) == end);
    assert(wav::chunks_end(c, end) == end);
    assert(wav::chunks_end(c, at) == end);
    assert(wav::boundary(c, at, end));
    assert(wav::quad(c, at) == name);
}

proof fn lemma_named_last(cs: Seq<wav::Chunk>, c: wav::Chunk, id: Seq<u8>)
    ensures
        wav::last_named(cs + seq![c], id) == (if c.id == id {
            Some(c)
        } else {
            wav::last_named(cs, id)
        }),
{
    assert((cs + seq![c]).drop_last() =~= cs);
    assert((cs + seq![c]).last() == c);
}

proof fn lemma_short(cs: Seq<wav::Chunk>, c: wav::Chunk)
    ensures
        wav::any_short_fmt(cs + seq![c]) <==> wav::any_short_fmt(cs) || wav::short_fmt(c),
{
    let all = cs + seq![c];
    if wav::any_short_fmt(cs) {
        let i = choose|i: int| 0 <= i < cs.len() && wav::short_fmt(#[trigger] cs[i]);
        assert(all[i] == cs[i]);
    }
    if wav::short_fmt(c) {
        assert(all[cs.len() as int] == c);
    }
    if wav::any_short_fmt(all) {
        let i = choose|i: int| 0 <= i < all.len() && wav::short_fmt(#[trigger] all[i]);
        if i < cs.len() {
            assert(cs[i] == all[i]);
        }
    }
}

/// Everything of a file that grows by a chunk.
proof fn lemma_grown(b: Seq<u8>, name: Seq<u8>, body: Seq<u8>, filler: u8)
    requires
        whole(b),
        name.len() == 4,
        body.len() < 0x1_0000_0000,
        (b + chunk(name, body, filler)).len() <= usize::MAX,
    ensures
        ({
            let c = b + chunk(name, body, filler);
            let new = wav::Chunk { id: name, start: b.len() as int + 8, size: body.len() };
            &&& whole(c)
            &&& wav::is_wave(b)
            &&& wav::is_wave(c)
            &&& wav::chunks(c, 12) == wav::chunks(b, 12) + seq![new]
            &&& !wav::overflows(c)
            &&& !wav::overflows(b)
            &&& wav::fmt_id() == fmt_name()
            &&& wav::data_id() == data_name()
            &&& wav::riff_tag() == seq![0x52u8, 0x49u8, 0x46u8, 0x46u8]
        }),
{
    let piece = chunk(name, body, filler);
    let c = b + piece;
    lemma_append(b, piece, 12);
    lemma_chunk_stands(b, name, body, filler);
    lemma_boundary_join(c, 12, b.len() as int, c.len() as int);
    assert(c.take(4) =~= b.take(4));
    assert(c.subrange(8, 12) =~= b.subrange(8, 12));
    lemma_is_wave(b);
    lemma_is_wave(c);
    assert(wav::fmt_id() =~= fmt_name());
    assert(wav::data_id() =~= data_name());
    assert(wav::riff_tag() =~= seq![0x52u8, 0x49u8, 0x46u8, 0x46u8]);
    assert(b + Seq::<u8>::empty() =~= b);
    lemma_append(b, Seq::empty(), 12);
    assert(!wav::complete_at(b, b.len() as int));
}

proof fn lemma_is_wave(b: Seq<u8>)
    requires
        whole(b),
    ensures
        wav::is_wave(b),
{
    assert(wav::quad(b, 0) =~= b.take(4));
    assert(wav::quad(b, 8) =~= b.subrange(8, 12));
    assert(wav::riff_tag() =~= seq![0x52u8, 0x49u8, 0x46u8, 0x46u8]);
    assert(wav::wave_tag() =~= seq![0x57u8, 0x41u8, 0x56u8, 0x45u8]);
}

proof fn lemma_boundary_join(b: Seq<u8>, from: int, mid: int, to: int)
    requires
        wav::boundary(b, from, mid),
        wav::boundary(b, mid, to),
    ensures
        wav::boundary(b, from, to),
    decreases b.len() + 1 - from,
{
    if from != mid {
        lemma_boundary_join(b, wav::next_chunk(b, from), mid, to);
    }
}

proof fn lemma_rate_bytes(b: Seq<u8>, start: int, body: Seq<u8>)
    requires
        0 <= start,
        body.len() >= 12,
        start + body.len() <= b.len(),
        b.subrange(start, start + body.len()) == body,
    ensures
        b.subrange(start + 8, start + 12) == body.subrange(8, 12),
{
    let whole_body = b.subrange(start, start + body.len());
    assert(b.subrange(start + 8, start + 12) =~= whole_body.subrange(8, 12));
}

/// A `data` chunk at the end of a file is its audio: it counts exactly the bytes
/// of its body, whatever stood before it, unless a `fmt ` chunk before it is
/// broken.
pub proof fn last_data_chunk_is_the_audio(b: Seq<u8>, body: Seq<u8>, filler: u8)
    requires
        whole(b),
        body.len() < 0x1_0000_0000,
        (b + chunk(data_name(), body, filler)).len() <= usize::MAX,
        wav::data_bytes(b) != Err::<u64, WavError>(WavError::TruncatedFmt),
    ensures
        whole(b + chunk(data_name(), body, filler)),
        wav::data_bytes(b + chunk(data_name(), body, filler)) == Ok::<u64, WavError>(
            body.len() as u64,
        ),
{
    let new = wav::Chunk { id: data_name(), start: b.len() as int + 8, size: body.len() };
    lemma_grown(b, data_name(), body, filler);
    lemma_named_last(wav::chunks(b, 12), new, data_name());
    lemma_short(wav::chunks(b, 12), new);
    assert(data_name()[0] != fmt_name()[0]);
}

/// A file of a `fmt ` chunk and a `data` chunk, behind whatever other whole
/// chunks, plays as long as its audio lasts at the byte rate that stands in the
/// `fmt ` chunk, behind its first eight bytes, least byte first; and its audio
/// is the body of the `data` chunk.
pub proof fn file_plays_as_long_as_its_audio(
    b: Seq<u8>,
    format: Seq<u8>,
    rate: nat,
    audio: Seq<u8>,
    filler: u8,
)
    requires
        whole(b),
        wav::data_bytes(b) != Err::<u64, WavError>(WavError::TruncatedFmt),
        16 <= format.len() < 0x1_0000_0000,
        0 < rate < 0x1_0000_0000,
        format.subrange(8, 12) == four_bytes(rate),
        audio.len() < 0x1_0000_0000,
        (b + chunk(fmt_name(), format, filler) + chunk(data_name(), audio, filler)).len()
            <= usize::MAX,
    ensures
        ({
            let file = b + chunk(fmt_name(), format, filler) + chunk(data_name(), audio, filler);
            &&& wav::data_bytes(file) == Ok::<u64, WavError>(audio.len() as u64)
            &&& wav::duration_ms(file) is Ok
            &&& wav::duration_ms(file)->Ok_0 * rate <= 1000 * audio.len() < (wav::duration_ms(
                file,
            )->Ok_0 + 1) * rate
        }),
{
    let one = b + chunk(fmt_name(), format, filler);
    let two = one + chunk(data_name(), audio, filler);
    let f = wav::Chunk { id: fmt_name(), start: b.len() as int + 8, size: format.len() };
    let d = wav::Chunk { id: data_name(), start: one.len() as int + 8, size: audio.len() };
    lemma_grown(b, fmt_name(), format, filler);
    lemma_short(wav::chunks(b, 12), f);
    lemma_named_last(wav::chunks(b, 12), f, fmt_name());
    lemma_grown(one, data_name(), audio, filler);
    lemma_short(wav::chunks(one, 12), d);
    lemma_named_last(wav::chunks(one, 12), d, fmt_name());
    lemma_named_last(wav::chunks(one, 12), d, data_name());
    assert(data_name()[0] != fmt_name()[0]);
    lemma_chunk_stands(b, fmt_name(), format, filler);
    assert(two.subrange(f.start, f.start + format.len()) =~= one.subrange(
        f.start,
        f.start + format.len(),
    ));
    lemma_rate_bytes(two, f.start, format);
    sizes_are_little_endian(two, f.start + 8, rate);
    lemma_quotient(audio.len() * 1000, rate);
    assert(audio.len() * 1000 / rate <= audio.len() * 1000) by (nonlinear_arith)
        requires
            rate > 0,
    ;
}

/// It does not matter whether the format stands before the audio or after it.
pub proof fn audio_may_stand_before_its_format(
    b: Seq<u8>,
    format: Seq<u8>,
    rate: nat,
    audio: Seq<u8>,
    filler: u8,
)
    requires
        whole(b),
        wav::data_bytes(b) != Err::<u64, WavError>(WavError::TruncatedFmt),
        16 <= format.len() < 0x1_0000_0000,
        0 < rate < 0x1_0000_0000,
        format.subrange(8, 12) == four_bytes(rate),
        audio.len() < 0x1_0000_0000,
        (b + chunk(data_name(), audio, filler) + chunk(fmt_name(), format, filler)).len()
            <= usize::MAX,
    ensures
        ({
            let file = b + chunk(data_name(), audio, filler) + chunk(fmt_name(), format, filler);
            &&& wav::data_bytes(file) == Ok::<u64, WavError>(audio.len() as u64)
            &&& wav::duration_ms(file) is Ok
            &&& wav::duration_ms(file)->Ok_0 * rate <= 1000 * audio.len() < (wav::duration_ms(
                file,
            )->Ok_0 + 1) * rate
        }),
{
    let one = b + chunk(data_name(), audio, filler);
    let two = one + chunk(fmt_name(), format, filler);
    let d = wav::Chunk { id: data_name(), start: b.len() as int + 8, size: audio.len() };
    let f = wav::Chunk { id: fmt_name(), start: one.len() as int + 8, size: format.len() };
    assert(data_name()[0] != fmt_name()[0]);
    lemma_grown(b, data_name(), audio, filler);
    lemma_short(wav::chunks(b, 12), d);
    lemma_named_last(wav::chunks(b, 12), d, data_name());
    lemma_grown(one, fmt_name(), format, filler);
    lemma_short(wav::chunks(one, 12), f);
    lemma_named_last(wav::chunks(one, 12), f, fmt_name());
    lemma_named_last(wav::chunks(one, 12), f, data_name());
    lemma_chunk_stands(one, fmt_name(), format, filler);
    lemma_rate_bytes(two, f.start, format);
    sizes_are_little_endian(two, f.start + 8, rate);
    lemma_quotient(audio.len() * 1000, rate);
    assert(audio.len() * 1000 / rate <= audio.len() * 1000) by (nonlinear_arith)
        requires
            rate > 0,
    ;
}

/// What is wrong is told: a `fmt ` chunk shorter than sixteen bytes, a file
/// without one, one without a `data` chunk, and one whose byte rate is zero.
pub proof fn broken_files_are_told(
    b: Seq<u8>,
    format: Seq<u8>,
    audio: Seq<u8>,
    filler: u8,
)
    requires
        whole(b),
        wav::data_bytes(b) == Err::<u64, WavError>(WavError::MissingData),
        wav::duration_ms(b) == Err::<u64, WavError>(WavError::MissingFmt),
        format.len() < 0x1_0000_0000,
        audio.len() < 0x1_0000_0000,
        (b + chunk(fmt_name(), format, filler) + chunk(data_name(), audio, filler)).len()
            <= usize::MAX,
    ensures
        ({
            let formatted = b + chunk(fmt_name(), format, filler);
            let sounding = b + chunk(data_name(), audio, filler);
            let both = formatted + chunk(data_name(), audio, filler);
            &&& wav::duration_ms(sounding) == Err::<u64, WavError>(WavError::MissingFmt)
            &&& format.len() < 16 ==> {
                &&& wav::duration_ms(formatted) == Err::<u64, WavError>(WavError::TruncatedFmt)
                &&& wav::data_bytes(formatted) == Err::<u64, WavError>(WavError::TruncatedFmt)
                &&& wav::duration_ms(both) == Err::<u64, WavError>(WavError::TruncatedFmt)
            }
            &&& format.len() >= 16 ==> {
                &&& wav::duration_ms(formatted) == Err::<u64, WavError>(WavError::MissingData)
                &&& wav::data_bytes(formatted) == Err::<u64, WavError>(WavError::MissingData)
                &&& format.subrange(8, 12) == four_bytes(0) ==> wav::duration_ms(both) == Err::<
                    u64,
                    WavError,
                >(WavError::ZeroByteRate)
            }
        }),
{
    let formatted = b + chunk(fmt_name(), format, filler);
    let sounding = b + chunk(data_name(), audio, filler);
    let both = formatted + chunk(data_name(), audio, filler);
    let f = wav::Chunk { id: fmt_name(), start: b.len() as int + 8, size: format.len() };
    let s = wav::Chunk { id: data_name(), start: b.len() as int + 8, size: audio.len() };
    let d = wav::Chunk { id: data_name(), start: formatted.len() as int + 8, size: audio.len() };
    assert(data_name()[0] != fmt_name()[0]);
    lemma_grown(b, fmt_name(), format, filler);
    lemma_grown(b, data_name(), audio, filler);
    lemma_grown(formatted, data_name(), audio, filler);
    lemma_short(wav::chunks(b, 12), f);
    lemma_short(wav::chunks(b, 12), s);
    lemma_short(wav::chunks(formatted, 12), d);
    lemma_named_last(wav::chunks(b, 12), f, fmt_name());
    lemma_named_last(wav::chunks(b, 12), f, data_name());
    lemma_named_last(wav::chunks(b, 12), s, fmt_name());
    lemma_named_last(wav::chunks(formatted, 12), d, fmt_name());
    lemma_named_last(wav::chunks(formatted, 12), d, data_name());
    if format.len() >= 16 && format.subrange(8, 12) == four_bytes(0) {
        lemma_chunk_stands(b, fmt_name(), format, filler);
        assert(both.subrange(f.start, f.start + format.len()) =~= formatted.subrange(
            f.start,
            f.start + format.len(),
        ));
        lemma_rate_bytes(both, f.start, format);
        sizes_are_little_endian(both, f.start + 8, 0);
    }
}

/// The twelve bytes of a header alone make a whole file, without a `fmt ` and
/// without a `data` chunk.
pub proof fn bare_header_has_nothing_in_it(b: Seq<u8>)
    requires
        b.len() == 12,
        b.take(4) == seq![0x52u8, 0x49u8, 0x46u8, 0x46u8],
        b.subrange(8, 12) == seq![0x57u8, 0x41u8, 0x56u8, 0x45u8],
    ensures
        whole(b),
        wav::duration_ms(b) == Err::<u64, WavError>(WavError::MissingFmt),
        wav::data_bytes(b) == Err::<u64, WavError>(WavError::MissingData),
{
    assert(wav::boundary(b, 12, 12));
    lemma_is_wave(b);
    assert(!wav::complete_at(b, 12));
    assert(wav::chunks(b, 12) =~= Seq::empty());
}

/// A chunk at the end of a file that is cut short does not count.
pub proof fn chunk_cut_short_does_not_count(b: Seq<u8>, rest: Seq<u8>)
    requires
        whole(b),
        rest.len() < 8 || 8 + wav::le32(rest, 4) > rest.len(),
        (b + rest).len() <= isize::MAX,
        usize::MAX == u64::MAX,
    ensures
        wav::duration_ms(b + rest) == wav::duration_ms(b),
        wav::data_bytes(b + rest) == wav::data_bytes(b),
{
    let c = b + rest;
    let at = b.len() as int;
    lemma_append(b, rest, 12);
    if rest.len() >= 8 {
        assert(c[at + 4] == rest[4] && c[at + 5] == rest[5] && c[at + 6] == rest[6] && c[at + 7]
            == rest[7]);
        assert(wav::le32(c, at + 4) == wav::le32(rest, 4));
    }
    assert(!wav::complete_at(c, at));
    assert(wav::chunks(c, 12) =~= wav::chunks(b, 12));
    assert(c.take(4) =~= b.take(4));
    assert(c.subrange(8, 12) =~= b.subrange(8, 12));
    lemma_is_wave(b);
    assert(wav::quad(c, 0) =~= c.take(4));
    assert(wav::quad(c, 8) =~= c.subrange(8, 12));
    assert(wav::quad(b, 0) =~= b.take(4));
    assert(wav::quad(b, 8) =~= b.subrange(8, 12));
    wav::walk_stays_within_addresses(c);
    wav::walk_stays_within_addresses(b);
    let cs = wav::chunks(b, 12);
    wav::lemma_last_named_is_one(cs, wav::fmt_id());
    wav::lemma_chunks_in_bounds(b, 12);
    if !wav::any_short_fmt(cs) {
        if let Some(f) = wav::last_named(cs, wav::fmt_id()) {
            let i = choose|i: int| 0 <= i < cs.len() && #[trigger] cs[i] == f;
            assert(!wav::short_fmt(cs[i]));
            assert(wav::byte_rate(c, f) == wav::byte_rate(b, f));
        }
    }
}

// ---- gain ----------------------------------------------------------------

/// The two bytes of a sample, least first, negative ones as their complement.
pub open spec fn two_bytes(s: i16) -> Seq<u8> {
    let u = if s < 0 {
        s + 0x1_0000
    } else {
        s as int
    };
    seq![(u % 0x100) as u8, (u / 0x100) as u8]
}

/// Samples are two bytes, least first.
pub proof fn samples_are_little_endian(b: Seq<u8>, at: int, s: i16)
    requires
        0 <= at,
        at + 2 <= b.len(),
    ensures
        synth::sample_at(b, at) == s <==> b.subrange(at, at + 2) == two_bytes(s),
{
    let two = b.subrange(at, at + 2);
    assert(two[0] == b[at] && two[1] == b[at + 1]);
    if two == two_bytes(s) {
        assert(two[0] == two_bytes(s)[0] && two[1] == two_bytes(s)[1]);
    }
    if synth::sample_at(b, at) == s {
        assert(two =~= two_bytes(s));
    }
}

proof fn lemma_first_data(b: Seq<u8>, tail: Seq<u8>, from: int)
    requires
        0 <= from,
        wav::boundary(b, from, b.len() as int),
        wav::last_named(wav::chunks(b, from), wav::data_id()) is None,
    ensures
        synth::data_body(b + tail, from) == synth::data_body(b + tail, b.len() as int),
    decreases b.len() + 1 - from,
{
    let c = b + tail;
    if from != b.len() {
        let next = wav::next_chunk(b, from);
        lemma_append(b, tail, next);
        assert(forall|i: int| 0 <= i < b.len() ==> c[i] == b[i]);
        assert(wav::le32(c, from + 4) == wav::le32(b, from + 4));
        assert(wav::quad(c, from) == wav::quad(b, from));
        let cs = wav::chunks(b, from);
        lemma_none_named(seq![wav::chunk_at(b, from)], wav::chunks(b, next), wav::data_id());
        assert(wav::chunk_at(b, from).id == wav::quad(b, from));
        lemma_first_data(b, tail, next);
    }
}

proof fn lemma_none_named(a: Seq<wav::Chunk>, c: Seq<wav::Chunk>, id: Seq<u8>)
    requires
        a.len() == 1,
        wav::last_named(a + c, id) is None,
    ensures
        a[0].id != id,
        wav::last_named(c, id) is None,
    decreases c.len(),
{
    if c.len() == 0 {
        assert(a + c =~= a);
    } else {
        assert((a + c).drop_last() =~= a + c.drop_last());
        assert((a + c).last() == c.last());
        lemma_none_named(a, c.drop_last(), id);
    }
}

/// A gain multiplies the samples of the first `data` chunk, each by its own, and
/// changes nothing else: not what stands before it, not its name and size, not
/// an odd byte at its end, and not what follows.
pub proof fn gain_multiplies_the_samples(
    b: Seq<u8>,
    audio: Seq<u8>,
    filler: u8,
    tail: Seq<u8>,
    after: Seq<u8>,
    gain: Single,
)
    requires
        whole(b),
        wav::last_named(wav::chunks(b, 12), data_name()) is None,
        audio.len() < 0x1_0000_0000,
        synth::samples_scaled(b + chunk(data_name(), audio, filler) + tail, after, gain),
    ensures
        ({
            let before = b + chunk(data_name(), audio, filler) + tail;
            let start = b.len() + 8;
            &&& after.len() == before.len()
            &&& forall|i: int|
                0 <= i < before.len() && !(start <= i < start + audio.len() / 2 * 2) ==> after[i]
                    == #[trigger] before[i]
            &&& forall|k: int, s: i16|
                0 <= k < audio.len() / 2 && audio.subrange(2 * k, 2 * k + 2) == two_bytes(s)
                    ==> #[trigger] after.subrange(start + 2 * k, start + 2 * k + 2)
                    == #[trigger] two_bytes(gain.scaled(s))
        }),
{
    let piece = chunk(data_name(), audio, filler);
    let before = b + piece + tail;
    let start = b.len() + 8;
    let at = b.len() as int;
    assert(before =~= b + (piece + tail));
    assert(wav::data_id() =~= data_name());
    lemma_first_data(b, piece + tail, 12);
    lemma_chunk_stands(b, data_name(), audio, filler);
    assert(before.subrange(at + 4, at + 8) =~= four_bytes(audio.len()));
    sizes_are_little_endian(before, at + 4, audio.len());
    assert(wav::quad(before, at) =~= data_name());
    assert(synth::data_body(before, 12) == Some((start as int, start + audio.len() as int)));
    assert(wav::is_wave(before)) by {
        lemma_is_wave(b);
        assert(wav::quad(before, 0) =~= wav::quad(b, 0));
        assert(wav::quad(before, 8) =~= wav::quad(b, 8));
    }
    assert(synth::sample_area(before) == Some((start as int, audio.len() as int / 2)));
    assert forall|k: int, s: i16|
        0 <= k < audio.len() / 2 && audio.subrange(2 * k, 2 * k + 2) == two_bytes(s) implies
        #[trigger] after.subrange(start + 2 * k, start + 2 * k + 2) == #[trigger] two_bytes(
        gain.scaled(s),
    ) by {
        let p = start + 2 * k;
        assert(before.subrange(p, p + 2) =~= audio.subrange(2 * k, 2 * k + 2));
        samples_are_little_endian(before, p, s);
        samples_are_little_endian(after, p, gain.scaled(s));
        assert(synth::sample_at(after, start + 2 * k) == gain.scaled(
            synth::sample_at(before, start + 2 * k) as i16,
        ));
    }
}

/// Bytes that are no WAV file are left as they are.
pub proof fn gain_leaves_other_files_alone(before: Seq<u8>, after: Seq<u8>, gain: Single)
    requires
        synth::samples_scaled(before, after, gain),
        wav::data_bytes(before) == Err::<u64, WavError>(WavError::NotRiff),
    ensures
        after == before,
{
}

/// Where the audio is cut short, the gain reaches to the end of the file.
pub proof fn gain_reaches_to_the_end_of_a_cut_file(
    b: Seq<u8>,
    size: nat,
    audio: Seq<u8>,
    after: Seq<u8>,
    gain: Single,
)
    requires
        whole(b),
        wav::last_named(wav::chunks(b, 12), data_name()) is None,
        audio.len() <= size < 0x1_0000_0000,
        synth::samples_scaled(b + data_name() + four_bytes(size) + audio, after, gain),
    ensures
        ({
            let before = b + data_name() + four_bytes(size) + audio;
            let start = b.len() + 8;
            &&& after.len() == before.len()
            &&& forall|i: int|
                0 <= i < before.len() && !(start <= i < start + audio.len() / 2 * 2) ==> after[i]
                    == #[trigger] before[i]
            &&& forall|k: int, s: i16|
                0 <= k < audio.len() / 2 && audio.subrange(2 * k, 2 * k + 2) == two_bytes(s)
                    ==> #[trigger] after.subrange(start + 2 * k, start + 2 * k + 2)
                    == #[trigger] two_bytes(gain.scaled(s))
        }),
{
    let piece = data_name() + four_bytes(size) + audio;
    let before = b + data_name() + four_bytes(size) + audio;
    let start = b.len() + 8;
    let at = b.len() as int;
    assert(before =~= b + piece);
    assert(wav::data_id() =~= data_name());
    lemma_first_data(b, piece, 12);
    assert(before.subrange(at + 4, at + 8) =~= four_bytes(size));
    sizes_are_little_endian(before, at + 4, size);
    assert(wav::quad(before, at) =~= data_name());
    assert(synth::data_body(before, 12) == Some((start as int, start + audio.len() as int)));
    assert(wav::is_wave(before)) by {
        lemma_is_wave(b);
        assert(wav::quad(before, 0) =~= wav::quad(b, 0));
        assert(wav::quad(before, 8) =~= wav::quad(b, 8));
    }
    assert(synth::sample_area(before) == Some((start as int, audio.len() as int / 2)));
    assert forall|k: int, s: i16|
        0 <= k < audio.len() / 2 && audio.subrange(2 * k, 2 * k + 2) == two_bytes(s) implies
        #[trigger] after.subrange(start + 2 * k, start + 2 * k + 2) == #[trigger] two_bytes(
        gain.scaled(s),
    ) by {
        let p = start + 2 * k;
        assert(before.subrange(p, p + 2) =~= audio.subrange(2 * k, 2 * k + 2));
        samples_are_little_endian(before, p, s);
        samples_are_little_endian(after, p, gain.scaled(s));
        assert(synth::sample_at(after, start + 2 * k) == gain.scaled(
            synth::sample_at(before, start + 2 * k) as i16,
        ));
    }
}

/// A file without audio stays as it is.
pub proof fn gain_leaves_files_without_audio_alone(b: Seq<u8>, after: Seq<u8>, gain: Single)
    requires
        whole(b),
        wav::last_named(wav::chunks(b, 12), data_name()) is None,
        synth::samples_scaled(b, after, gain),
    ensures
        after == b,
{
    assert(wav::data_id() =~= data_name());
    lemma_first_data(b, Seq::empty(), 12);
    assert(b + Seq::<u8>::empty() =~= b);
}

} // verus!
