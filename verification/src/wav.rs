//! Minimal RIFF/WAVE header reader.
//!
//! The daemon takes two things from a WAV file: how long it plays, which caps
//! `drained_ms` on cancel, and how many bytes of audio it holds, which is what
//! `played_bytes` reports. This is no WAV decoder: only the `fmt ` and `data`
//! chunks are looked at, and all others are stepped over.

use crate::text;
use vstd::prelude::*;

verus! {

/// What can be wrong with a WAV header.
#[derive(Debug, PartialEq, Eq)]
pub enum WavError {
    /// The file could not be read; the text says why.
    Io(String),
    /// The bytes do not begin with `RIFF....WAVE`.
    NotRiff,
    /// The container ended before a `fmt ` chunk was seen.
    MissingFmt,
    /// The container ended before a `data` chunk was seen.
    MissingData,
    /// A `fmt ` chunk is smaller than the 16-byte PCM minimum.
    TruncatedFmt,
    /// The declared byte rate is zero.
    ZeroByteRate,
    /// A chunk would end past the largest address.
    SizeOverflow,
}

impl WavError {
    /// The error in words.
    pub open spec fn words(self) -> Seq<char> {
        match self {
            WavError::Io(why) => "io reading wav: "@ + why@,
            WavError::NotRiff => "not a RIFF/WAVE container"@,
            WavError::MissingFmt => "fmt chunk missing"@,
            WavError::MissingData => "data chunk missing"@,
            WavError::TruncatedFmt => "fmt chunk truncated"@,
            WavError::ZeroByteRate => "byte_rate is zero"@,
            WavError::SizeOverflow => "chunk size overflow"@,
        }
    }

    /// The error in words.
    pub fn message(&self) -> (r: String)
        ensures
            r@ == self.words(),
    {
        match self {
            WavError::Io(why) => text::joined2("io reading wav: ", why.as_str()),
            WavError::NotRiff => "not a RIFF/WAVE container".to_owned(),
            WavError::MissingFmt => "fmt chunk missing".to_owned(),
            WavError::MissingData => "data chunk missing".to_owned(),
            WavError::TruncatedFmt => "fmt chunk truncated".to_owned(),
            WavError::ZeroByteRate => "byte_rate is zero".to_owned(),
            WavError::SizeOverflow => "chunk size overflow".to_owned(),
        }
    }
}

/// One chunk of a RIFF file: its four-byte name, where its body starts, and
/// the size that it declares.
pub struct Chunk {
    pub id: Seq<u8>,
    pub start: int,
    pub size: nat,
}

/// The container tag `RIFF`.
pub open spec fn riff_tag() -> Seq<u8> {
    seq![0x52, 0x49, 0x46, 0x46]
}

/// The form tag `WAVE`.
pub open spec fn wave_tag() -> Seq<u8> {
    seq![0x57, 0x41, 0x56, 0x45]
}

/// The chunk name `fmt `.
pub open spec fn fmt_id() -> Seq<u8> {
    seq![0x66, 0x6d, 0x74, 0x20]
}

/// The chunk name `data`.
pub open spec fn data_id() -> Seq<u8> {
    seq![0x64, 0x61, 0x74, 0x61]
}

/// The four bytes at `at`.
pub open spec fn quad(b: Seq<u8>, at: int) -> Seq<u8> {
    seq![b[at], b[at + 1], b[at + 2], b[at + 3]]
}

/// The little-endian number in the four bytes at `at`.
pub open spec fn le32(b: Seq<u8>, at: int) -> nat {
    (b[at] + 0x100 * b[at + 1] + 0x1_0000 * b[at + 2] + 0x100_0000 * b[at + 3]) as nat
}

/// Whether `b` begins with the twelve bytes `RIFF....WAVE`.
pub open spec fn is_wave(b: Seq<u8>) -> bool {
    b.len() >= 12 && quad(b, 0) == riff_tag() && quad(b, 8) == wave_tag()
}

/// The chunk whose eight-byte header stands at `at`.
pub open spec fn chunk_at(b: Seq<u8>, at: int) -> Chunk {
    Chunk { id: quad(b, at), start: at + 8, size: le32(b, at + 4) }
}

/// Whether a chunk header and all of the body that it declares stand at `at`.
pub open spec fn complete_at(b: Seq<u8>, at: int) -> bool {
    0 <= at && at + 8 <= b.len() && at + 8 + le32(b, at + 4) <= b.len()
}

/// Where the chunk after the one at `at` begins: chunks are padded to an even
/// size, and the pad byte is not counted in the declared size.
pub open spec fn next_chunk(b: Seq<u8>, at: int) -> int {
    at + 8 + le32(b, at + 4) + le32(b, at + 4) % 2
}

/// The complete chunks from `at` on, up to the first that is cut short.
pub open spec fn chunks(b: Seq<u8>, at: int) -> Seq<Chunk>
    decreases b.len() + 1 - at,
{
    if complete_at(b, at) {
        seq![chunk_at(b, at)] + chunks(b, next_chunk(b, at))
    } else {
        Seq::empty()
    }
}

/// Where the walk over the complete chunks from `at` on comes to an end.
pub open spec fn chunks_end(b: Seq<u8>, at: int) -> int
    decreases b.len() + 1 - at,
{
    if complete_at(b, at) {
        chunks_end(b, next_chunk(b, at))
    } else {
        at
    }
}

/// Whether the walk over the chunks of `b` ends at a position, or at a chunk
/// whose end, that no address can name.
pub open spec fn overflows(b: Seq<u8>) -> bool {
    let end = chunks_end(b, 12);
    ||| end > usize::MAX
    ||| end + 8 <= b.len() && end + 8 + le32(b, end + 4) > usize::MAX
}

/// Whether `c` is a `fmt ` chunk too small for the PCM fields.
pub open spec fn short_fmt(c: Chunk) -> bool {
    c.id == fmt_id() && c.size < 16
}

/// Whether one of the chunks is a `fmt ` chunk too small for the PCM fields.
pub open spec fn any_short_fmt(cs: Seq<Chunk>) -> bool {
    exists|i: int| 0 <= i < cs.len() && short_fmt(#[trigger] cs[i])
}

/// The last of the chunks that bears the name `id`.
pub open spec fn last_named(cs: Seq<Chunk>, id: Seq<u8>) -> Option<Chunk>
    decreases cs.len(),
{
    if cs.len() == 0 {
        None
    } else if cs.last().id == id {
        Some(cs.last())
    } else {
        last_named(cs.drop_last(), id)
    }
}

/// The byte rate that a `fmt ` chunk declares.
pub open spec fn byte_rate(b: Seq<u8>, fmt: Chunk) -> nat {
    le32(b, fmt.start + 8)
}

/// The playback time of the WAV file `b` in milliseconds: the size of its
/// `data` chunk over the byte rate of its `fmt ` chunk, rounded down. Where a
/// chunk occurs more than once, the last one counts.
pub open spec fn duration_ms(b: Seq<u8>) -> Result<u64, WavError> {
    let cs = chunks(b, 12);
    if !is_wave(b) {
        Err(WavError::NotRiff)
    } else if any_short_fmt(cs) {
        Err(WavError::TruncatedFmt)
    } else if overflows(b) {
        Err(WavError::SizeOverflow)
    } else {
        match (last_named(cs, fmt_id()), last_named(cs, data_id())) {
            (None, _) => Err(WavError::MissingFmt),
            (_, None) => Err(WavError::MissingData),
            (Some(fmt), Some(data)) => if byte_rate(b, fmt) == 0 {
                Err(WavError::ZeroByteRate)
            } else {
                Ok((data.size * 1000 / byte_rate(b, fmt)) as u64)
            },
        }
    }
}

/// The number of audio bytes that the WAV file `b` holds: the declared size of
/// its last complete `data` chunk.
pub open spec fn data_bytes(b: Seq<u8>) -> Result<u64, WavError> {
    let cs = chunks(b, 12);
    if !is_wave(b) {
        Err(WavError::NotRiff)
    } else if any_short_fmt(cs) {
        Err(WavError::TruncatedFmt)
    } else if overflows(b) {
        Err(WavError::SizeOverflow)
    } else {
        match last_named(cs, data_id()) {
            None => Err(WavError::MissingData),
            Some(data) => Ok(data.size as u64),
        }
    }
}

/// The little-endian number in the four bytes at `at`.
pub fn read_le32(bytes: &[u8], at: usize) -> (r: u32)
    requires
        at + 4 <= bytes@.len(),
    ensures
        r == le32(bytes@, at as int),
{
    let a: u32 = bytes[at] as u32;
    let b: u32 = bytes[at + 1] as u32;
    let c: u32 = bytes[at + 2] as u32;
    let d: u32 = bytes[at + 3] as u32;
    a + 0x100 * b + 0x1_0000 * c + 0x100_0000 * d
}

/// Whether the four bytes at `at` are `w`, `x`, `y`, `z`.
pub fn quad_is(bytes: &[u8], at: usize, w: u8, x: u8, y: u8, z: u8) -> (r: bool)
    requires
        at + 4 <= bytes@.len(),
    ensures
        r == (quad(bytes@, at as int) == seq![w, x, y, z]),
{
    let r = bytes[at] == w && bytes[at + 1] == x && bytes[at + 2] == y && bytes[at + 3] == z;
    proof {
        let q = quad(bytes@, at as int);
        let t = seq![w, x, y, z];
        if r {
            assert(q == t);
        } else {
            assert(q[0] != t[0] || q[1] != t[1] || q[2] != t[2] || q[3] != t[3]);
        }
    }
    r
}

/// Whether the bytes begin with `RIFF....WAVE`.
pub fn has_wave_header(bytes: &[u8]) -> (r: bool)
    ensures
        r == is_wave(bytes@),
{
    bytes.len() >= 12 && quad_is(bytes, 0, 0x52, 0x49, 0x46, 0x46) && quad_is(
        bytes,
        8,
        0x57,
        0x41,
        0x56,
        0x45,
    )
}

/// What the chunks of a WAV file declare, as far as it is of use here.
struct Header {
    byte_rate: Option<u32>,
    data_size: Option<u32>,
}

proof fn lemma_last_named_push(cs: Seq<Chunk>, c: Chunk, id: Seq<u8>)
    ensures
        last_named(cs.push(c), id) == if c.id == id {
            Some(c)
        } else {
            last_named(cs, id)
        },
{
    assert(cs.push(c).drop_last() == cs);
}

proof fn lemma_ids_differ()
    ensures
        fmt_id() != data_id(),
{
    assert(fmt_id()[0] != data_id()[0]);
}

/// Walks the chunks and keeps what the last `fmt ` and `data` chunks declare.
fn scan(bytes: &[u8]) -> (r: Result<Header, WavError>)
    ensures
        !is_wave(bytes@) ==> r == Err::<Header, WavError>(WavError::NotRiff),
        is_wave(bytes@) && any_short_fmt(chunks(bytes@, 12)) ==> r == Err::<Header, WavError>(
            WavError::TruncatedFmt,
        ),
        is_wave(bytes@) && !any_short_fmt(chunks(bytes@, 12)) && overflows(bytes@) ==> r == Err::<
            Header,
            WavError,
        >(WavError::SizeOverflow),
        is_wave(bytes@) && !any_short_fmt(chunks(bytes@, 12)) && !overflows(bytes@) ==> {
            &&& r matches Ok(h)
            &&& match last_named(chunks(bytes@, 12), fmt_id()) {
                Some(fmt) => h.byte_rate matches Some(n) && n == byte_rate(bytes@, fmt),
                None => h.byte_rate is None,
            }
            &&& match last_named(chunks(bytes@, 12), data_id()) {
                Some(data) => h.data_size matches Some(n) && n == data.size,
                None => h.data_size is None,
            }
        },
{
    if !has_wave_header(bytes) {
        return Err(WavError::NotRiff);
    }
    let len: usize = bytes.len();
    let mut cursor: usize = 12;
    let mut rate: Option<u32> = None;
    let mut size_of_data: Option<u32> = None;
    let ghost b = bytes@;
    let ghost mut done: Seq<Chunk> = Seq::empty();
    assert(done + chunks(b, 12) == chunks(b, 12));
    while cursor <= len && len - cursor >= 8
        invariant
            b == bytes@,
            len == b.len(),
            12 <= cursor,
            is_wave(b),
            chunks(b, 12) == done + chunks(b, cursor as int),
            chunks_end(b, 12) == chunks_end(b, cursor as int),
            !any_short_fmt(done),
            match last_named(done, fmt_id()) {
                Some(fmt) => rate matches Some(n) && n == byte_rate(b, fmt),
                None => rate is None,
            },
            match last_named(done, data_id()) {
                Some(data) => size_of_data matches Some(n) && n == data.size,
                None => size_of_data is None,
            },
        ensures
            !complete_at(b, cursor as int),
            !overflows(b),
        decreases len + 1 - cursor,
    {
        let size: u32 = read_le32(bytes, cursor + 4);
        let body: usize = cursor + 8;
        let size_usize: usize = size as usize;
        if size_usize > usize::MAX - body {
            assert(chunks_end(b, cursor as int) == cursor);
            assert(chunks(b, cursor as int) == Seq::<Chunk>::empty());
            assert(chunks(b, 12) == done);
            return Err(WavError::SizeOverflow);
        }
        if body + size_usize > len {
            assert(chunks_end(b, cursor as int) == cursor);
            break;
        }
        let ghost c = chunk_at(b, cursor as int);
        proof {
            lemma_last_named_push(done, c, fmt_id());
            lemma_last_named_push(done, c, data_id());
            lemma_ids_differ();
            assert(chunks(b, 12) == done.push(c) + chunks(b, next_chunk(b, cursor as int)));
        }
        if quad_is(bytes, cursor, 0x66, 0x6d, 0x74, 0x20) {
            if size < 16 {
                assert(chunks(b, 12)[done.len() as int] == c);
                assert(short_fmt(chunks(b, 12)[done.len() as int]));
                return Err(WavError::TruncatedFmt);
            }
            rate = Some(read_le32(bytes, body + 8));
        } else if quad_is(bytes, cursor, 0x64, 0x61, 0x74, 0x61) {
            size_of_data = Some(size);
        }
        proof {
            assert forall|i: int| 0 <= i < done.push(c).len() implies !short_fmt(
                #[trigger] done.push(c)[i],
            ) by {
                if i < done.len() {
                    assert(done.push(c)[i] == done[i]);
                }
            }
            done = done.push(c);
        }
        let pad: usize = (size % 2) as usize;
        if pad > usize::MAX - (body + size_usize) {
            assert(!complete_at(b, next_chunk(b, cursor as int)));
            assert(chunks_end(b, next_chunk(b, cursor as int)) == next_chunk(b, cursor as int));
            assert(chunks(b, next_chunk(b, cursor as int)) == Seq::<Chunk>::empty());
            assert(chunks(b, 12) == done);
            return Err(WavError::SizeOverflow);
        }
        cursor = body + size_usize + pad;
        assert(!(cursor <= len && len - cursor >= 8) ==> chunks_end(b, cursor as int) == cursor);
    }
    assert(chunks(b, cursor as int) == Seq::<Chunk>::empty());
    assert(chunks(b, 12) == done);
    Ok(Header { byte_rate: rate, data_size: size_of_data })
}

/// Playback duration of an in-memory WAV file, in milliseconds.
pub fn parse_duration_ms_bytes(bytes: &[u8]) -> (r: Result<u64, WavError>)
    ensures
        r == duration_ms(bytes@),
{
    let header = match scan(bytes) {
        Ok(h) => h,
        Err(e) => {
            return Err(e);
        },
    };
    match header.byte_rate {
        None => Err(WavError::MissingFmt),
        Some(rate) => match header.data_size {
            None => Err(WavError::MissingData),
            Some(size) => if rate == 0 {
                Err(WavError::ZeroByteRate)
            } else {
                assert(size as int * 1000 / rate as int <= size as int * 1000) by (nonlinear_arith)
                    requires
                        rate > 0,
                ;
                Ok(size as u64 * 1000 / rate as u64)
            },
        },
    }
}

/// Audio bytes of an in-memory WAV file.
pub fn parse_data_bytes_bytes(bytes: &[u8]) -> (r: Result<u64, WavError>)
    ensures
        r == data_bytes(bytes@),
{
    match scan(bytes) {
        Ok(header) => match header.data_size {
            None => Err(WavError::MissingData),
            Some(size) => Ok(size as u64),
        },
        Err(e) => Err(e),
    }
}

/// Playback duration of the WAV file at `path`. `read` reads the file.
pub fn parse_duration_ms<R: Fn(&str) -> Result<Vec<u8>, String>>(path: &str, read: R) -> (r: Result<
    u64,
    WavError,
>)
    requires
        call_requires(read, (path,)),
    ensures
        exists|file: Result<Vec<u8>, String>| #[trigger]
            call_ensures(read, (path,), file) && r == match file {
                Ok(bytes) => duration_ms(bytes@),
                Err(why) => Err(WavError::Io(why)),
            },
{
    let file = read(path);
    assert(call_ensures(read, (path,), file));
    match file {
        Ok(bytes) => parse_duration_ms_bytes(bytes.as_slice()),
        Err(why) => Err(WavError::Io(why)),
    }
}

/// Audio bytes of the WAV file at `path`. `read` reads the file.
pub fn parse_data_bytes<R: Fn(&str) -> Result<Vec<u8>, String>>(path: &str, read: R) -> (r: Result<
    u64,
    WavError,
>)
    requires
        call_requires(read, (path,)),
    ensures
        exists|file: Result<Vec<u8>, String>| #[trigger]
            call_ensures(read, (path,), file) && r == match file {
                Ok(bytes) => data_bytes(bytes@),
                Err(why) => Err(WavError::Io(why)),
            },
{
    let file = read(path);
    assert(call_ensures(read, (path,), file));
    match file {
        Ok(bytes) => parse_data_bytes_bytes(bytes.as_slice()),
        Err(why) => Err(WavError::Io(why)),
    }
}

// ---- chunks of other names -----------------------------------------------

/// Whether the walk over the chunks of `b` from `from` on comes by `at`.
pub open spec fn boundary(b: Seq<u8>, from: int, at: int) -> bool
    decreases b.len() + 1 - from,
{
    from == at || (complete_at(b, from) && boundary(b, next_chunk(b, from), at))
}

/// `b` with the chunk at `at` taken out, its pad byte included.
pub open spec fn without_chunk(b: Seq<u8>, at: int) -> Seq<u8> {
    b.take(at) + b.skip(next_chunk(b, at))
}

spec fn moved_back(c: Chunk, by: int) -> Chunk {
    Chunk { id: c.id, start: c.start - by, size: c.size }
}

spec fn all_moved_back(cs: Seq<Chunk>, by: int) -> Seq<Chunk> {
    cs.map_values(|c: Chunk| moved_back(c, by))
}

proof fn lemma_boundary_order(b: Seq<u8>, from: int, at: int)
    requires
        boundary(b, from, at),
    ensures
        from <= at,
    decreases b.len() + 1 - from,
{
    if from != at {
        lemma_boundary_order(b, next_chunk(b, from), at);
    }
}

/// Behind the chunk that was taken out, the same chunks follow, moved back.
proof fn lemma_chunks_behind(b: Seq<u8>, at: int, p: int)
    requires
        complete_at(b, at),
        next_chunk(b, at) <= b.len(),
        next_chunk(b, at) <= p,
    ensures
        ({
            let by = next_chunk(b, at) - at;
            let c = without_chunk(b, at);
            &&& chunks(c, p - by) == all_moved_back(chunks(b, p), by)
            &&& chunks_end(c, p - by) == chunks_end(b, p) - by
        }),
    decreases b.len() + 1 - p,
{
    let by = next_chunk(b, at) - at;
    let c = without_chunk(b, at);
    assert(c.len() == b.len() - by);
    if p + 8 <= b.len() {
        assert forall|i: int| p <= i < b.len() implies c[i - by] == #[trigger] b[i] by {}
        assert(forall|i: int| p <= i < p + 8 ==> c[i - by] == #[trigger] b[i]);
        assert(b[p + 4] == c[p - by + 4]);
        assert(b[p + 5] == c[p - by + 5]);
        assert(b[p + 6] == c[p - by + 6]);
        assert(b[p + 7] == c[p - by + 7]);
        assert(le32(c, p - by + 4) == le32(b, p + 4));
        assert(b[p] == c[p - by] && b[p + 1] == c[p - by + 1] && b[p + 2] == c[p - by + 2] && b[p
            + 3] == c[p - by + 3]);
        assert(quad(c, p - by) == quad(b, p));
    }
    if complete_at(b, p) {
        lemma_chunks_behind(b, at, next_chunk(b, p));
        assert(next_chunk(c, p - by) == next_chunk(b, p) - by);
        assert(all_moved_back(chunks(b, p), by) == seq![moved_back(chunk_at(b, p), by)]
            + all_moved_back(chunks(b, next_chunk(b, p)), by));
    } else {
        assert(!complete_at(c, p - by));
        assert(all_moved_back(chunks(b, p), by) == Seq::<Chunk>::empty());
    }
}

/// Before the chunk that was taken out, the chunks are the same.
proof fn lemma_chunks_before(b: Seq<u8>, from: int, at: int) -> (pre: Seq<Chunk>)
    requires
        0 <= from,
        boundary(b, from, at),
        complete_at(b, at),
        next_chunk(b, at) <= b.len(),
    ensures
        ({
            let c = without_chunk(b, at);
            &&& chunks(b, from) == pre + chunks(b, at)
            &&& chunks(c, from) == pre + chunks(c, at)
            &&& chunks_end(b, from) == chunks_end(b, at)
            &&& chunks_end(c, from) == chunks_end(c, at)
            &&& forall|i: int|
                0 <= i < pre.len() ==> 0 <= (#[trigger] pre[i]).start && pre[i].start + pre[i].size
                    <= at
        }),
    decreases b.len() + 1 - from,
{
    let c = without_chunk(b, at);
    if from == at {
        assert(chunks(b, at) == Seq::<Chunk>::empty() + chunks(b, at));
        assert(chunks(c, at) == Seq::<Chunk>::empty() + chunks(c, at));
        Seq::empty()
    } else {
        let next = next_chunk(b, from);
        lemma_boundary_order(b, next, at);
        let rest = lemma_chunks_before(b, next, at);
        assert(forall|i: int| 0 <= i < at ==> c[i] == b[i]);
        assert(le32(c, from + 4) == le32(b, from + 4));
        assert(quad(c, from) == quad(b, from));
        assert(c.len() >= at);
        assert(complete_at(c, from));
        assert(next_chunk(c, from) == next);
        assert(chunk_at(c, from) == chunk_at(b, from));
        let pre = seq![chunk_at(b, from)] + rest;
        assert(chunks(b, from) == pre + chunks(b, at));
        assert(chunks(c, from) == pre + chunks(c, at));
        pre
    }
}

proof fn lemma_last_named_concat(a: Seq<Chunk>, c: Seq<Chunk>, id: Seq<u8>)
    ensures
        last_named(a + c, id) == match last_named(c, id) {
            Some(found) => Some(found),
            None => last_named(a, id),
        },
    decreases c.len(),
{
    if c.len() == 0 {
        assert(a + c == a);
    } else {
        lemma_last_named_concat(a, c.drop_last(), id);
        assert((a + c).drop_last() == a + c.drop_last());
    }
}

proof fn lemma_last_named_moved(cs: Seq<Chunk>, by: int, id: Seq<u8>)
    ensures
        last_named(all_moved_back(cs, by), id) == match last_named(cs, id) {
            Some(found) => Some(moved_back(found, by)),
            None => None,
        },
    decreases cs.len(),
{
    if cs.len() > 0 {
        lemma_last_named_moved(cs.drop_last(), by, id);
        assert(all_moved_back(cs, by).drop_last() == all_moved_back(cs.drop_last(), by));
    }
}

pub(crate) proof fn lemma_last_named_is_one(cs: Seq<Chunk>, id: Seq<u8>)
    ensures
        last_named(cs, id) matches Some(found) ==> found.id == id && exists|i: int|
            0 <= i < cs.len() && #[trigger] cs[i] == found,
    decreases cs.len(),
{
    if cs.len() > 0 {
        if cs.last().id == id {
            assert(cs[cs.len() - 1] == cs.last());
        } else {
            lemma_last_named_is_one(cs.drop_last(), id);
            if let Some(found) = last_named(cs.drop_last(), id) {
                let i = choose|i: int|
                    0 <= i < cs.drop_last().len() && #[trigger] cs.drop_last()[i] == found;
                assert(cs[i] == found);
            }
        }
    }
}

pub(crate) proof fn lemma_chunks_in_bounds(b: Seq<u8>, at: int)
    ensures
        forall|i: int|
            0 <= i < chunks(b, at).len() ==> at + 8 <= (#[trigger] chunks(b, at)[i]).start && chunks(
                b,
                at,
            )[i].start + chunks(b, at)[i].size <= b.len(),
    decreases b.len() + 1 - at,
{
    if complete_at(b, at) {
        let next = next_chunk(b, at);
        lemma_chunks_in_bounds(b, next);
        let cs = chunks(b, at);
        assert forall|i: int| 0 <= i < cs.len() implies at + 8 <= (#[trigger] cs[i]).start
            && cs[i].start + cs[i].size <= b.len() by {
            if i > 0 {
                assert(cs[i] == chunks(b, next)[i - 1]);
            }
        }
    }
}

/// A chunk that is neither `fmt ` nor `data` does not count: taking it out of
/// a file, wherever it stands among the chunks, changes neither the duration
/// nor the number of audio bytes.
pub proof fn unknown_chunks_do_not_count(b: Seq<u8>, at: int)
    requires
        boundary(b, 12, at),
        complete_at(b, at),
        next_chunk(b, at) <= b.len() <= usize::MAX,
        quad(b, at) != fmt_id(),
        quad(b, at) != data_id(),
        !overflows(b),
    ensures
        duration_ms(without_chunk(b, at)) == duration_ms(b),
        data_bytes(without_chunk(b, at)) == data_bytes(b),
{
    let c = without_chunk(b, at);
    let next = next_chunk(b, at);
    let by = next - at;
    lemma_boundary_order(b, 12, at);
    let pre = lemma_chunks_before(b, 12, at);
    lemma_chunks_behind(b, at, next);
    let behind = chunks(b, next);
    let moved = all_moved_back(behind, by);
    let out = chunk_at(b, at);
    assert(c.len() == b.len() - by);
    assert(forall|i: int| 0 <= i < at ==> c[i] == b[i]);
    assert(is_wave(c) == is_wave(b)) by {
        assert(quad(c, 0) == quad(b, 0));
        assert(quad(c, 8) == quad(b, 8));
    }
    assert(chunks(b, 12) == pre + (seq![out] + behind));
    assert(chunks(c, 12) == pre + moved);
    // the names that count
    assert forall|id: Seq<u8>| id == fmt_id() || id == data_id() implies {
        &&& last_named(chunks(b, 12), id) == match last_named(behind, id) {
            Some(f) => Some(f),
            None => last_named(pre, id),
        }
        &&& last_named(chunks(c, 12), id) == match last_named(behind, id) {
            Some(f) => Some(moved_back(f, by)),
            None => last_named(pre, id),
        }
    } by {
        lemma_last_named_concat(pre, seq![out] + behind, id);
        lemma_last_named_concat(seq![out], behind, id);
        assert(seq![out].drop_last() == Seq::<Chunk>::empty());
        assert(last_named(Seq::<Chunk>::empty(), id) is None);
        assert(seq![out].last() == out);
        assert(last_named(seq![out], id) is None);
        lemma_last_named_concat(pre, moved, id);
        lemma_last_named_moved(behind, by, id);
    }
    // short fmt chunks
    let before = chunks(b, 12);
    let after = chunks(c, 12);
    assert(any_short_fmt(before) == any_short_fmt(after)) by {
        if any_short_fmt(before) {
            let i = choose|i: int| 0 <= i < before.len() && short_fmt(#[trigger] before[i]);
            if i < pre.len() {
                assert(after[i] == pre[i]);
                assert(short_fmt(after[i]));
            } else {
                assert(i != pre.len());
                assert(before[i] == behind[i - pre.len() - 1]);
                assert(after[i - 1] == moved[i - pre.len() - 1]);
                assert(short_fmt(after[i - 1]));
            }
        }
        if any_short_fmt(after) {
            let i = choose|i: int| 0 <= i < after.len() && short_fmt(#[trigger] after[i]);
            if i < pre.len() {
                assert(before[i] == pre[i]);
                assert(short_fmt(before[i]));
            } else {
                assert(after[i] == moved[i - pre.len()]);
                assert(before[i + 1] == behind[i - pre.len()]);
                assert(short_fmt(before[i + 1]));
            }
        }
    }
    // addresses
    assert(!overflows(c)) by {
        let end = chunks_end(b, next);
        assert(chunks_end(b, 12) == end);
        assert(chunks_end(c, 12) == end - by);
        lemma_end_not_before(b, next);
        if end + 8 <= b.len() {
            assert(c[end - by + 4] == b[end + 4]);
            assert(c[end - by + 5] == b[end + 5]);
            assert(c[end - by + 6] == b[end + 6]);
            assert(c[end - by + 7] == b[end + 7]);
            assert(le32(c, end - by + 4) == le32(b, end + 4));
        }
    }
    // the byte rate
    if !any_short_fmt(before) {
        if let Some(f) = last_named(before, fmt_id()) {
            lemma_last_named_is_one(before, fmt_id());
            let i = choose|i: int| 0 <= i < before.len() && #[trigger] before[i] == f;
            assert(!short_fmt(before[i]));
            if last_named(behind, fmt_id()) is Some {
                lemma_last_named_is_one(behind, fmt_id());
                lemma_chunks_in_bounds(b, next);
                let g = last_named(behind, fmt_id())->0;
                assert(g == f);
                assert(c[f.start - by + 8] == b[f.start + 8]);
                assert(c[f.start - by + 9] == b[f.start + 9]);
                assert(c[f.start - by + 10] == b[f.start + 10]);
                assert(c[f.start - by + 11] == b[f.start + 11]);
                assert(byte_rate(c, moved_back(f, by)) == byte_rate(b, f));
            } else {
                lemma_last_named_is_one(pre, fmt_id());
                assert(byte_rate(c, f) == byte_rate(b, f));
            }
        }
    }
}

pub(crate) proof fn lemma_end_not_before(b: Seq<u8>, at: int)
    ensures
        at <= chunks_end(b, at),
    decreases b.len() + 1 - at,
{
    if complete_at(b, at) {
        lemma_end_not_before(b, next_chunk(b, at));
    }
}

proof fn lemma_end_bound(b: Seq<u8>, at: int)
    requires
        at <= b.len() + 1,
    ensures
        chunks_end(b, at) <= b.len() + 1,
    decreases b.len() + 1 - at,
{
    if complete_at(b, at) {
        lemma_end_bound(b, next_chunk(b, at));
    }
}

/// Where addresses are wider than the sizes that chunks declare, no slice is
/// so long that the walk over its chunks overflows.
pub proof fn walk_stays_within_addresses(b: Seq<u8>)
    requires
        usize::MAX == u64::MAX,
        b.len() <= isize::MAX,
    ensures
        !overflows(b),
{
    if b.len() >= 11 {
        lemma_end_bound(b, 12);
    } else {
        assert(!complete_at(b, 12));
    }
}

proof fn lemma_same_boundary(a: Seq<u8>, b: Seq<u8>, from: int, at: int)
    requires
        0 <= from,
        boundary(a, from, at),
        at <= a.len() <= b.len(),
        forall|i: int| 0 <= i < at ==> a[i] == b[i],
    ensures
        boundary(b, from, at),
    decreases a.len() + 1 - from,
{
    if from != at {
        let next = next_chunk(a, from);
        lemma_boundary_order(a, next, at);
        assert(le32(a, from + 4) == le32(b, from + 4));
        lemma_same_boundary(a, b, next, at);
    }
}

/// A chunk that is neither `fmt ` nor `data` is skipped wherever it stands:
/// `extra`, a whole chunk with its pad byte, put into a file between two chunks
/// changes neither what is made of the duration nor of the number of audio
/// bytes. That holds of every file whose walk overflows no address: with
/// addresses of 64 bits, of every file that a slice can hold.
pub proof fn unknown_chunk_is_skipped_anywhere(head: Seq<u8>, extra: Seq<u8>, tail: Seq<u8>)
    requires
        boundary(head + tail, 12, head.len() as int),
        extra.len() >= 8,
        extra.len() == 8 + le32(extra, 4) + le32(extra, 4) % 2,
        quad(extra, 0) != fmt_id(),
        quad(extra, 0) != data_id(),
    ensures
        ({
            let with = head + extra + tail;
            (usize::MAX == u64::MAX && with.len() <= isize::MAX) || (with.len() <= usize::MAX
                && !overflows(with)) ==> {
                &&& duration_ms(with) == duration_ms(head + tail)
                &&& data_bytes(with) == data_bytes(head + tail)
            }
        }),
{
    let a = head + tail;
    let b = head + extra + tail;
    let at = head.len() as int;
    lemma_same_boundary(a, b, 12, at);
    lemma_boundary_order(a, 12, at);
    assert(b[at] == extra[0] && b[at + 1] == extra[1] && b[at + 2] == extra[2] && b[at + 3]
        == extra[3]);
    assert(b[at + 4] == extra[4] && b[at + 5] == extra[5] && b[at + 6] == extra[6] && b[at + 7]
        == extra[7]);
    assert(quad(b, at) == quad(extra, 0));
    assert(le32(b, at + 4) == le32(extra, 4));
    assert(without_chunk(b, at) =~= a);
    if usize::MAX == u64::MAX && b.len() <= isize::MAX {
        walk_stays_within_addresses(b);
    }
    if b.len() <= usize::MAX && !overflows(b) {
        unknown_chunks_do_not_count(b, at);
    }
}

} // verus!
