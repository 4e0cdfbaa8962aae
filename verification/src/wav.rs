//! The RIFF/WAVE container: reading the format and sample data of a WAV
//! file, and writing 16-bit PCM audio.

use vstd::prelude::*;
use vstd::string::*;

verus! {

/// The fields of a WAV `fmt ` chunk that the decoder reads.
#[derive(Debug, Clone, Copy, PartialEq, Eq, Structural)]
pub struct WavFormat {
    pub audio_format: u16,
    pub channels: u16,
    pub sample_rate: u32,
    pub bits_per_sample: u16,
}

/// A decoded WAV container: its format and the bytes of its `data` chunk.
#[derive(Debug, Clone, PartialEq, Eq)]
pub struct WavData {
    pub format: WavFormat,
    pub data: Vec<u8>,
}

/// Why a WAV file was refused.
#[derive(Debug, Clone, Copy, PartialEq, Eq, Structural)]
pub enum WavError {
    /// Fewer than twelve bytes: no RIFF header.
    HeaderUnreadable,
    /// The header is not `RIFF....WAVE`.
    NotRiffWave,
    /// A chunk claims more bytes than the file holds.
    ChunkSizeInvalid,
    /// The `fmt ` chunk is shorter than sixteen bytes.
    FmtTooShort,
    /// There is no `fmt ` chunk.
    FmtMissing,
    /// The format declares zero channels.
    ZeroChannels,
    /// The sample encoding is not one the decoder supports.
    Unsupported { audio_format: u16, bits_per_sample: u16 },
}

/// Little-endian 16-bit value at `at`.
pub open spec fn le_u16(b: Seq<u8>, at: int) -> u16 {
    (b[at] + 256 * b[at + 1]) as u16
}

/// Little-endian 32-bit value at `at`.
pub open spec fn le_u32(b: Seq<u8>, at: int) -> u32 {
    (b[at] + 256 * b[at + 1] + 65536 * b[at + 2] + 16777216 * b[at + 3]) as u32
}

/// The four bytes at `at` spell `tag`.
pub open spec fn tag_at(b: Seq<u8>, at: int, tag: Seq<char>) -> bool {
    forall|k: int| 0 <= k < 4 ==> #[trigger] b[at + k] == tag[k] as u8
}

/// Whether the decoder converts samples of this encoding (integer PCM of
/// 16, 24 or 32 bits, or 32-bit float).
pub open spec fn supported_encoding(audio_format: u16, bits: u16) -> bool {
    (audio_format == 1 && (bits == 16 || bits == 24 || bits == 32)) || (audio_format == 3 && bits
        == 32)
}

/// The chunk walk from byte `pos`, carrying the last `fmt ` fields and the
/// last `data` chunk seen.
pub open spec fn walk_chunks(b: Seq<u8>, pos: int, fmt: Option<WavFormat>, data: Seq<u8>) -> Result<
    (Option<WavFormat>, Seq<u8>),
    WavError,
>
    decreases b.len() - pos,
{
    if pos < 0 || pos + 8 > b.len() {
        Ok((fmt, data))
    } else {
        let size = le_u32(b, pos + 4) as int;
        let start = pos + 8;
        if start + size > b.len() {
            Err(WavError::ChunkSizeInvalid)
        } else {
            let chunk = b.subrange(start, start + size);
            let after = start + size;
            let next = if size % 2 == 1 && after < b.len() {
                after + 1
            } else {
                after
            };
            if tag_at(b, pos, "fmt "@) {
                if size < 16 {
                    Err(WavError::FmtTooShort)
                } else {
                    let f = WavFormat {
                        audio_format: le_u16(chunk, 0),
                        channels: le_u16(chunk, 2),
                        sample_rate: le_u32(chunk, 4),
                        bits_per_sample: le_u16(chunk, 14),
                    };
                    walk_chunks(b, next, Some(f), data)
                }
            } else if tag_at(b, pos, "data"@) {
                walk_chunks(b, next, fmt, chunk)
            } else {
                walk_chunks(b, next, fmt, data)
            }
        }
    }
}

/// Where the chunk at `pos` ends: after its header, its payload and, for an
/// odd size, the pad byte when there is one.
pub open spec fn chunk_end(b: Seq<u8>, pos: int) -> int {
    let after = pos + 8 + le_u32(b, pos + 4) as int;
    if le_u32(b, pos + 4) % 2 == 1 && after < b.len() {
        after + 1
    } else {
        after
    }
}

/// A whole chunk at `pos` whose tag is neither `fmt ` nor `data`.
pub open spec fn unknown_chunk_at(b: Seq<u8>, pos: int) -> bool {
    &&& 0 <= pos
    &&& pos + 8 <= b.len()
    &&& pos + 8 + le_u32(b, pos + 4) <= b.len()
    &&& !tag_at(b, pos, "fmt "@)
    &&& !tag_at(b, pos, "data"@)
}

/// The bytes with the chunk at `pos` cut out.
pub open spec fn without_chunk(b: Seq<u8>, pos: int) -> Seq<u8> {
    b.take(pos) + b.skip(chunk_end(b, pos))
}

/// Tags read from the same four bytes agree.
proof fn lemma_tag_same(b: Seq<u8>, p: int, c: Seq<u8>, q: int, t: Seq<char>)
    requires
        0 <= p,
        p + 4 <= b.len(),
        0 <= q,
        q + 4 <= c.len(),
        b[p] == c[q],
        b[p + 1] == c[q + 1],
        b[p + 2] == c[q + 2],
        b[p + 3] == c[q + 3],
    ensures
        tag_at(b, p, t) == tag_at(c, q, t),
{
    if tag_at(b, p, t) {
        assert forall|k: int| 0 <= k < 4 implies #[trigger] c[q + k] == t[k] as u8 by {
            assert(b[p + k] == t[k] as u8);
        }
    }
    if tag_at(c, q, t) {
        assert forall|k: int| 0 <= k < 4 implies #[trigger] b[p + k] == t[k] as u8 by {
            assert(c[q + k] == t[k] as u8);
        }
    }
}

/// The walk reads only the bytes from its position on.
proof fn lemma_walk_shift(b: Seq<u8>, p: int, c: Seq<u8>, q: int, fmt: Option<WavFormat>, data: Seq<u8>)
    requires
        0 <= p <= b.len(),
        0 <= q <= c.len(),
        b.skip(p) == c.skip(q),
    ensures
        walk_chunks(b, p, fmt, data) == walk_chunks(c, q, fmt, data),
    decreases b.len() - p,
{
    assert(b.skip(p).len() == b.len() - p);
    assert(c.skip(q).len() == c.len() - q);
    assert forall|i: int| 0 <= i < b.len() - p implies #[trigger] b[p + i] == c[q + i] by {
        assert(b.skip(p)[i] == b[p + i]);
        assert(c.skip(q)[i] == c[q + i]);
    }
    if p + 8 <= b.len() {
        assert(b[p + 4] == c[q + 4] && b[p + 5] == c[q + 5] && b[p + 6] == c[q + 6] && b[p + 7] == c[q + 7]);
        let size = le_u32(b, p + 4) as int;
        assert(le_u32(c, q + 4) as int == size);
        if p + 8 + size <= b.len() {
            assert(b.subrange(p + 8, p + 8 + size) =~= c.subrange(q + 8, q + 8 + size)) by {
                assert forall|i: int| 0 <= i < size implies #[trigger] b.subrange(p + 8, p + 8 + size)[i] == c.subrange(
                    q + 8,
                    q + 8 + size,
                )[i] by {
                    assert(b[p + (8 + i)] == c[q + (8 + i)]);
                }
            }
            assert(b[p + 0] == c[q + 0] && b[p + 1] == c[q + 1] && b[p + 2] == c[q + 2] && b[p + 3] == c[q + 3]);
            lemma_tag_same(b, p, c, q, "fmt "@);
            lemma_tag_same(b, p, c, q, "data"@);
            let nb = chunk_end(b, p);
            let nc = chunk_end(c, q);
            assert(nb - p == nc - q);
            assert(b.skip(nb) =~= c.skip(nc)) by {
                assert forall|i: int| 0 <= i < b.len() - nb implies b.skip(nb)[i] == c.skip(nc)[i] by {
                    assert(b[p + (nb - p + i)] == c[q + (nb - p + i)]);
                }
            }
            let chunk = b.subrange(p + 8, p + 8 + size);
            lemma_walk_shift(b, nb, c, nc, fmt, data);
            lemma_walk_shift(b, nb, c, nc, fmt, chunk);
            if tag_at(b, p, "fmt "@) && size >= 16 {
                let f = WavFormat {
                    audio_format: le_u16(chunk, 0),
                    channels: le_u16(chunk, 2),
                    sample_rate: le_u32(chunk, 4),
                    bits_per_sample: le_u16(chunk, 14),
                };
                lemma_walk_shift(b, nb, c, nc, Some(f), data);
            }
        }
    }
}

/// A chunk with an unknown tag is skipped: walking over the bytes gives the
/// same as walking over them with that chunk cut out, whatever was read
/// before it. So the format and the data are found wherever they stand.
pub proof fn law_unknown_chunk_skipped(b: Seq<u8>, pos: int, fmt: Option<WavFormat>, data: Seq<u8>)
    requires
        unknown_chunk_at(b, pos),
    ensures
        walk_chunks(b, pos, fmt, data) == walk_chunks(without_chunk(b, pos), pos, fmt, data),
{
    let c = without_chunk(b, pos);
    let next = chunk_end(b, pos);
    assert(c.skip(pos) =~= b.skip(next));
    lemma_walk_shift(b, next, c, pos, fmt, data);
}

/// Decoding a file with an unknown chunk (such as `JUNK` or `LIST`) right
/// after its header gives the same as decoding it without that chunk.
pub proof fn law_decode_ignores_leading_unknown_chunk(b: Seq<u8>)
    requires
        unknown_chunk_at(b, 12),
    ensures
        decode_wav_spec(b) == decode_wav_spec(without_chunk(b, 12)),
{
    let c = without_chunk(b, 12);
    assert forall|i: int| 0 <= i < 12 implies #[trigger] c[i] == b[i] by {
        assert(c[i] == b.take(12)[i]);
    }
    assert(c[0] == b[0] && c[1] == b[1] && c[2] == b[2] && c[3] == b[3]);
    assert(c[8] == b[8] && c[9] == b[9] && c[10] == b[10] && c[11] == b[11]);
    lemma_tag_same(c, 0, b, 0, "RIFF"@);
    lemma_tag_same(c, 8, b, 8, "WAVE"@);
    law_unknown_chunk_skipped(b, 12, None, Seq::empty());
}

/// What decoding a WAV file gives: its format and sample bytes, or why it
/// was refused.
pub open spec fn decode_wav_spec(b: Seq<u8>) -> Result<(WavFormat, Seq<u8>), WavError> {
    if b.len() < 12 {
        Err(WavError::HeaderUnreadable)
    } else if !tag_at(b, 0, "RIFF"@) || !tag_at(b, 8, "WAVE"@) {
        Err(WavError::NotRiffWave)
    } else {
        match walk_chunks(b, 12, None, Seq::empty()) {
            Err(e) => Err(e),
            Ok((None, _)) => Err(WavError::FmtMissing),
            Ok((Some(f), data)) => if f.channels == 0 {
                Err(WavError::ZeroChannels)
            } else if !supported_encoding(f.audio_format, f.bits_per_sample) {
                Err(WavError::Unsupported { audio_format: f.audio_format, bits_per_sample: f.bits_per_sample })
            } else {
                Ok((f, data))
            },
        }
    }
}

fn read_u16(b: &[u8], at: usize) -> (r: u16)
    requires
        at + 2 <= b@.len(),
    ensures
        r == le_u16(b@, at as int),
{
    b[at] as u16 + (b[at + 1] as u16) * 256
}

fn read_u32(b: &[u8], at: usize) -> (r: u32)
    requires
        at + 4 <= b@.len(),
    ensures
        r == le_u32(b@, at as int),
{
    b[at] as u32 + (b[at + 1] as u32) * 256 + (b[at + 2] as u32) * 65536 + (b[at + 3] as u32)
        * 16777216
}

fn tag_is(b: &[u8], at: usize, tag: &str) -> (r: bool)
    requires
        at + 4 <= b@.len(),
        at + 4 <= usize::MAX,
        tag@.len() == 4,
        forall|k: int| 0 <= k < 4 ==> (#[trigger] tag@[k] as u32) < 256,
    ensures
        r == tag_at(b@, at as int, tag@),
{
    let mut k: usize = 0;
    while k < 4
        invariant
            at + 4 <= b@.len(),
            at + 4 <= usize::MAX,
            tag@.len() == 4,
            forall|j: int| 0 <= j < 4 ==> (#[trigger] tag@[j] as u32) < 256,
            k <= 4,
            forall|j: int| 0 <= j < k ==> #[trigger] b@[at + j] == tag@[j] as u8,
        decreases 4 - k,
    {
        let c = tag.get_char(k);
        if b[at + k] != (c as u32) as u8 {
            return false;
        }
        k = k + 1;
    }
    true
}

fn copy_range(b: &[u8], start: usize, end: usize) -> (r: Vec<u8>)
    requires
        start <= end <= b@.len(),
    ensures
        r@ == b@.subrange(start as int, end as int),
{
    let mut out: Vec<u8> = Vec::new();
    let mut i = start;
    while i < end
        invariant
            start <= i <= end <= b@.len(),
            out@ == b@.subrange(start as int, i as int),
        decreases end - i,
    {
        out.push(b[i]);
        assert(b@.subrange(start as int, i + 1) =~= b@.subrange(start as int, i as int).push(b@[i as int]));
        i = i + 1;
    }
    out
}

/// Reads the format and the sample bytes of a WAV file, checking that its
/// encoding is one the decoder converts.
pub fn decode_wav_container(bytes: &[u8]) -> (r: Result<WavData, WavError>)
    ensures
        match decode_wav_spec(bytes@) {
            Ok((f, d)) => r matches Ok(w) && w.format == f && w.data@ == d,
            Err(e) => r == Err::<WavData, WavError>(e),
        },
{
    proof {
        reveal_strlit("RIFF");
        reveal_strlit("WAVE");
        reveal_strlit("fmt ");
        reveal_strlit("data");
    }
    let len = bytes.len();
    if len < 12 {
        return Err(WavError::HeaderUnreadable);
    }
    if !tag_is(bytes, 0, "RIFF") || !tag_is(bytes, 8, "WAVE") {
        return Err(WavError::NotRiffWave);
    }
    let mut format: Option<WavFormat> = None;
    let mut data: Vec<u8> = Vec::new();
    let mut pos: usize = 12;
    while pos <= len && len - pos >= 8
        invariant
            len == bytes@.len(),
            12 <= pos,
            pos <= len + 1,
            len >= 12,
            tag_at(bytes@, 0, "RIFF"@),
            tag_at(bytes@, 8, "WAVE"@),
            walk_chunks(bytes@, 12, None, Seq::empty()) == walk_chunks(bytes@, pos as int, format, data@),
        decreases len + 1 - pos,
    {
        proof {
            reveal_strlit("fmt ");
            reveal_strlit("data");
        }
        let size = read_u32(bytes, pos + 4) as usize;
        let start = pos + 8;
        if size > len - start {
            return Err(WavError::ChunkSizeInvalid);
        }
        let after = start + size;
        let next = if size % 2 == 1 && after < len { after + 1 } else { after };
        if tag_is(bytes, pos, "fmt ") {
            if size < 16 {
                return Err(WavError::FmtTooShort);
            }
            let chunk = copy_range(bytes, start, after);
            format = Some(
                WavFormat {
                    audio_format: read_u16(chunk.as_slice(), 0),
                    channels: read_u16(chunk.as_slice(), 2),
                    sample_rate: read_u32(chunk.as_slice(), 4),
                    bits_per_sample: read_u16(chunk.as_slice(), 14),
                },
            );
        } else if tag_is(bytes, pos, "data") {
            data = copy_range(bytes, start, after);
        }
        pos = next;
    }
    match format {
        None => Err(WavError::FmtMissing),
        Some(f) => {
            if f.channels == 0 {
                Err(WavError::ZeroChannels)
            } else if !((f.audio_format == 1 && (f.bits_per_sample == 16 || f.bits_per_sample == 24
                || f.bits_per_sample == 32)) || (f.audio_format == 3 && f.bits_per_sample == 32)) {
                Err(WavError::Unsupported { audio_format: f.audio_format, bits_per_sample: f.bits_per_sample })
            } else {
                Ok(WavData { format: f, data })
            }
        },
    }
}

} // verus!

verus! {

/// Little-endian bytes of a 16-bit value.
pub open spec fn le16_bytes(v: u16) -> Seq<u8> {
    seq![(v % 256) as u8, (v / 256) as u8]
}

/// Little-endian bytes of a 32-bit value.
pub open spec fn le32_bytes(v: u32) -> Seq<u8> {
    seq![(v % 256) as u8, (v / 256 % 256) as u8, (v / 65536 % 256) as u8, (v / 16777216) as u8]
}

/// The bytes of a four-letter ASCII tag.
pub open spec fn tag_bytes(t: Seq<char>) -> Seq<u8> {
    seq![t[0] as u8, t[1] as u8, t[2] as u8, t[3] as u8]
}

/// Little-endian bytes of 16-bit samples, in order.
pub open spec fn samples_le(s: Seq<i16>) -> Seq<u8>
    decreases s.len(),
{
    if s.len() == 0 {
        Seq::empty()
    } else {
        samples_le(s.drop_last()) + le16_bytes(s.last() as u16)
    }
}

/// The sizes a 16-bit PCM WAV file of these parameters needs fit its header
/// fields.
pub open spec fn pcm16_fits(sample_rate: u32, channels: u16, n_samples: nat) -> bool {
    &&& channels * 2 <= u16::MAX
    &&& sample_rate * (channels * 2) <= u32::MAX
    &&& 36 + n_samples * 2 <= u32::MAX
}

/// The `RIFF` header of a 16-bit PCM WAV file (12 bytes).
pub open spec fn pcm16_riff(n_samples: nat) -> Seq<u8> {
    tag_bytes("RIFF"@) + le32_bytes((36 + n_samples * 2) as u32) + tag_bytes("WAVE"@)
}

/// The fields of the `fmt ` chunk of a 16-bit PCM WAV file (16 bytes).
pub open spec fn pcm16_fmt_fields(sample_rate: u32, channels: u16) -> Seq<u8> {
    le16_bytes(1) + le16_bytes(channels) + le32_bytes(sample_rate) + le32_bytes(
        (sample_rate * (channels * 2)) as u32,
    ) + le16_bytes((channels * 2) as u16) + le16_bytes(16)
}

/// The 44-byte header of a 16-bit PCM WAV file.
pub open spec fn pcm16_header(sample_rate: u32, channels: u16, n_samples: nat) -> Seq<u8> {
    pcm16_riff(n_samples) + (tag_bytes("fmt "@) + le32_bytes(16)) + pcm16_fmt_fields(
        sample_rate,
        channels,
    ) + (tag_bytes("data"@) + le32_bytes((n_samples * 2) as u32))
}

/// A 16-bit PCM WAV file of the samples.
pub open spec fn pcm16_wav(sample_rate: u32, channels: u16, samples: Seq<i16>) -> Seq<u8> {
    pcm16_header(sample_rate, channels, samples.len()) + samples_le(samples)
}

fn push_le16(out: &mut Vec<u8>, v: u16)
    ensures
        final(out)@ == old(out)@ + le16_bytes(v),
{
    out.push((v % 256) as u8);
    out.push((v / 256) as u8);
    assert(final(out)@ =~= old(out)@ + le16_bytes(v));
}

fn push_le32(out: &mut Vec<u8>, v: u32)
    ensures
        final(out)@ == old(out)@ + le32_bytes(v),
{
    out.push((v % 256) as u8);
    out.push((v / 256 % 256) as u8);
    out.push((v / 65536 % 256) as u8);
    out.push((v / 16777216) as u8);
    assert(final(out)@ =~= old(out)@ + le32_bytes(v));
}

fn push_tag(out: &mut Vec<u8>, t: &str)
    requires
        t@.len() == 4,
        forall|k: int| 0 <= k < 4 ==> (#[trigger] t@[k] as u32) < 256,
    ensures
        final(out)@ == old(out)@ + tag_bytes(t@),
{
    out.push((t.get_char(0) as u32) as u8);
    out.push((t.get_char(1) as u32) as u8);
    out.push((t.get_char(2) as u32) as u8);
    out.push((t.get_char(3) as u32) as u8);
    assert(final(out)@ =~= old(out)@ + tag_bytes(t@));
}

/// Writes 16-bit PCM samples as a WAV file.
pub fn encode_wav_pcm16(sample_rate: u32, channels: u16, samples: &[i16]) -> (r: Vec<u8>)
    requires
        pcm16_fits(sample_rate, channels, samples@.len()),
    ensures
        r@ == pcm16_wav(sample_rate, channels, samples@),
{
    proof {
        reveal_strlit("RIFF");
        reveal_strlit("WAVE");
        reveal_strlit("fmt ");
        reveal_strlit("data");
    }
    let block_align: u16 = channels * 2;
    assert(sample_rate * block_align <= u32::MAX);
    let byte_rate: u32 = sample_rate * (block_align as u32);
    let data_size: u32 = (samples.len() * 2) as u32;
    let mut bytes: Vec<u8> = Vec::new();
    push_tag(&mut bytes, "RIFF");
    push_le32(&mut bytes, 36 + data_size);
    push_tag(&mut bytes, "WAVE");
    push_tag(&mut bytes, "fmt ");
    push_le32(&mut bytes, 16);
    push_le16(&mut bytes, 1);
    push_le16(&mut bytes, channels);
    push_le32(&mut bytes, sample_rate);
    push_le32(&mut bytes, byte_rate);
    push_le16(&mut bytes, block_align);
    push_le16(&mut bytes, 16);
    push_tag(&mut bytes, "data");
    push_le32(&mut bytes, data_size);
    let ghost header = bytes@;
    assert(header =~= pcm16_header(sample_rate, channels, samples@.len()));
    let mut i: usize = 0;
    while i < samples.len()
        invariant
            i <= samples.len(),
            bytes@ == header + samples_le(samples@.take(i as int)),
        decreases samples.len() - i,
    {
        proof {
            assert(samples@.take(i + 1).drop_last() =~= samples@.take(i as int));
        }
        push_le16(&mut bytes, samples[i] as u16);
        assert(bytes@ =~= header + samples_le(samples@.take(i + 1)));
        i = i + 1;
    }
    assert(samples@.take(samples.len() as int) =~= samples@);
    bytes
}

proof fn lemma_le16(v: u16)
    ensures
        le_u16(le16_bytes(v), 0) == v,
{
    let b0 = (v % 256) as u8;
    let b1 = (v / 256) as u8;
    assert(b0 + 256 * b1 == v) by (nonlinear_arith)
        requires
            b0 == v % 256,
            b1 == v / 256,
    ;
}

proof fn lemma_le32(v: u32)
    ensures
        le_u32(le32_bytes(v), 0) == v,
{
    let b = le32_bytes(v);
    assert(b[0] == v % 256);
    assert(b[1] == v / 256 % 256);
    assert(b[2] == v / 65536 % 256);
    assert(b[3] == v / 16777216);
    assert((v % 256) + 256 * (v / 256 % 256) + 65536 * (v / 65536 % 256) + 16777216 * (v / 16777216) == v) by (nonlinear_arith)
        requires
            v <= u32::MAX,
    {
        assert(v / 256 == 256 * (v / 65536) + (v / 256 % 256));
        assert(v / 65536 == 256 * (v / 16777216) + (v / 65536 % 256));
        assert(v == 256 * (v / 256) + v % 256);
    }
}

proof fn lemma_samples_le_len(s: Seq<i16>)
    ensures
        samples_le(s).len() == 2 * s.len(),
    decreases s.len(),
{
    if s.len() > 0 {
        lemma_samples_le_len(s.drop_last());
    }
}

/// The two bytes of sample `i` in the little-endian layout.
proof fn lemma_samples_le_at(s: Seq<i16>, i: int)
    requires
        0 <= i < s.len(),
    ensures
        samples_le(s)[2 * i] == le16_bytes(s[i] as u16)[0],
        samples_le(s)[2 * i + 1] == le16_bytes(s[i] as u16)[1],
    decreases s.len(),
{
    lemma_samples_le_len(s.drop_last());
    if i < s.len() - 1 {
        lemma_samples_le_at(s.drop_last(), i);
        assert(s.drop_last()[i] == s[i]);
    }
}

/// Reading back the 16-bit sample that was stored gives its value.
proof fn lemma_pcm16_at_samples_le(s: Seq<i16>, i: int)
    requires
        0 <= i < s.len(),
    ensures
        pcm16_at(samples_le(s), i) == s[i] as int,
{
    lemma_samples_le_at(s, i);
    let x: i16 = s[i];
    let u: u16 = x as u16;
    assert(x >= 0 ==> (x as u16) as i32 == x as i32) by (bit_vector);
    assert(x < 0 ==> (x as u16) as i32 == x as i32 + 65536) by (bit_vector);
    let lo = u % 256;
    let hi = u / 256;
    assert(((u % 256) as u8) as int == u % 256);
    assert(((u / 256) as u8) as int == u / 256);
    assert(u as int == lo + 256 * hi);
}

proof fn lemma_fmt_fields(sample_rate: u32, channels: u16)
    ensures
        pcm16_fmt_fields(sample_rate, channels).len() == 16,
        le_u16(pcm16_fmt_fields(sample_rate, channels), 0) == 1,
        le_u16(pcm16_fmt_fields(sample_rate, channels), 2) == channels,
        le_u32(pcm16_fmt_fields(sample_rate, channels), 4) == sample_rate,
        le_u16(pcm16_fmt_fields(sample_rate, channels), 14) == 16,
{
    let f = pcm16_fmt_fields(sample_rate, channels);
    lemma_le16(1);
    lemma_le16(channels);
    lemma_le32(sample_rate);
    lemma_le16(16);
    assert(f.subrange(0, 2) =~= le16_bytes(1));
    assert(f.subrange(2, 4) =~= le16_bytes(channels));
    assert(f.subrange(4, 8) =~= le32_bytes(sample_rate));
    assert(f.subrange(14, 16) =~= le16_bytes(16));
}

proof fn lemma_header(sample_rate: u32, channels: u16, n: nat)
    requires
        pcm16_fits(sample_rate, channels, n),
    ensures
        pcm16_header(sample_rate, channels, n).len() == 44,
        tag_at(pcm16_header(sample_rate, channels, n), 0, "RIFF"@),
        tag_at(pcm16_header(sample_rate, channels, n), 8, "WAVE"@),
        tag_at(pcm16_header(sample_rate, channels, n), 12, "fmt "@),
        le_u32(pcm16_header(sample_rate, channels, n), 16) == 16,
        pcm16_header(sample_rate, channels, n).subrange(20, 36) == pcm16_fmt_fields(sample_rate, channels),
        tag_at(pcm16_header(sample_rate, channels, n), 36, "data"@),
        le_u32(pcm16_header(sample_rate, channels, n), 40) == n * 2,
{
    reveal_strlit("RIFF");
    reveal_strlit("WAVE");
    reveal_strlit("fmt ");
    reveal_strlit("data");
    let h = pcm16_header(sample_rate, channels, n);
    let riff = pcm16_riff(n);
    let fmt_head = tag_bytes("fmt "@) + le32_bytes(16);
    let fields = pcm16_fmt_fields(sample_rate, channels);
    let data_head = tag_bytes("data"@) + le32_bytes((n * 2) as u32);
    lemma_fmt_fields(sample_rate, channels);
    assert(riff.len() == 12);
    assert(h.subrange(0, 12) =~= riff);
    assert(h.subrange(12, 20) =~= fmt_head);
    assert(h.subrange(20, 36) =~= fields);
    assert(h.subrange(36, 44) =~= data_head);
    lemma_le32(16);
    lemma_le32((n * 2) as u32);
    assert(fmt_head.subrange(4, 8) =~= le32_bytes(16));
    assert(data_head.subrange(4, 8) =~= le32_bytes((n * 2) as u32));
    assert(le_u32(h, 16) == le_u32(fmt_head, 4));
    assert(le_u32(fmt_head, 4) == le_u32(le32_bytes(16), 0));
    assert(le_u32(h, 40) == le_u32(data_head, 4));
    assert(le_u32(data_head, 4) == le_u32(le32_bytes((n * 2) as u32), 0));
    assert(tag_at(h, 0, "RIFF"@)) by {
        assert forall|k: int| 0 <= k < 4 implies #[trigger] h[0 + k] == ("RIFF"@)[k] as u8 by {
            assert(h[k] == riff[k]);
        }
    }
    assert(tag_at(h, 8, "WAVE"@)) by {
        assert forall|k: int| 0 <= k < 4 implies #[trigger] h[8 + k] == ("WAVE"@)[k] as u8 by {
            assert(h[8 + k] == riff[8 + k]);
        }
    }
    assert(tag_at(h, 12, "fmt "@)) by {
        assert forall|k: int| 0 <= k < 4 implies #[trigger] h[12 + k] == ("fmt "@)[k] as u8 by {
            assert(h[12 + k] == fmt_head[k]);
        }
    }
    assert(tag_at(h, 36, "data"@)) by {
        assert forall|k: int| 0 <= k < 4 implies #[trigger] h[36 + k] == ("data"@)[k] as u8 by {
            assert(h[36 + k] == data_head[k]);
        }
    }
}

/// Writing 16-bit PCM audio and reading it back gives the same format and
/// the same sample bytes, and splitting those bytes into samples gives back
/// the samples that were written.
pub proof fn law_pcm16_round_trip(sample_rate: u32, channels: u16, samples: Seq<i16>)
    requires
        channels > 0,
        pcm16_fits(sample_rate, channels, samples.len()),
    ensures
        decode_wav_spec(pcm16_wav(sample_rate, channels, samples)) == Ok::<(WavFormat, Seq<u8>), WavError>(
            (
                WavFormat { audio_format: 1, channels, sample_rate, bits_per_sample: 16 },
                samples_le(samples),
            ),
        ),
        forall|r: Result<WavSamples, WavError>|
            #[trigger] samples_spec(1u16, 16u16, samples_le(samples), r) ==> (r matches Ok(
                WavSamples::Pcm16(v),
            ) && v@ == samples),
{
    let n: int = samples.len() as int;
    let h = pcm16_header(sample_rate, channels, samples.len());
    let b = pcm16_wav(sample_rate, channels, samples);
    let body = samples_le(samples);
    lemma_samples_le_len(samples);
    lemma_header(sample_rate, channels, samples.len());
    lemma_fmt_fields(sample_rate, channels);
    assert(b.len() == 44 + 2 * n);
    assert(b.subrange(0, 44) =~= h);
    assert(b.subrange(44, 44 + 2 * n) =~= body);
    assert(forall|i: int| 0 <= i < 44 ==> #[trigger] b[i] == h[i]);
    assert(tag_at(b, 0, "RIFF"@)) by {
        assert forall|k: int| 0 <= k < 4 implies #[trigger] b[0 + k] == ("RIFF"@)[k] as u8 by {
            assert(b[0 + k] == h[0 + k]);
        }
    }
    assert(tag_at(b, 8, "WAVE"@)) by {
        assert forall|k: int| 0 <= k < 4 implies #[trigger] b[8 + k] == ("WAVE"@)[k] as u8 by {
            assert(b[8 + k] == h[8 + k]);
        }
    }
    assert(tag_at(b, 12, "fmt "@)) by {
        assert forall|k: int| 0 <= k < 4 implies #[trigger] b[12 + k] == ("fmt "@)[k] as u8 by {
            assert(b[12 + k] == h[12 + k]);
        }
    }
    assert(tag_at(b, 36, "data"@)) by {
        assert forall|k: int| 0 <= k < 4 implies #[trigger] b[36 + k] == ("data"@)[k] as u8 by {
            assert(b[36 + k] == h[36 + k]);
        }
    }
    assert(!tag_at(b, 36, "fmt "@)) by {
        reveal_strlit("fmt ");
        reveal_strlit("data");
        assert(b[36] == h[36]);
    }
    assert(le_u32(b, 16) == 16);
    assert(le_u32(b, 40) == n * 2);
    let chunk = b.subrange(20, 36);
    assert(chunk =~= pcm16_fmt_fields(sample_rate, channels));
    let f = WavFormat { audio_format: 1, channels, sample_rate, bits_per_sample: 16 };
    assert(walk_chunks(b, 44 + 2 * n, Some(f), body) == Ok::<(Option<WavFormat>, Seq<u8>), WavError>(
        (Some(f), body),
    ));
    assert(walk_chunks(b, 36, Some(f), Seq::empty()) == walk_chunks(b, 44 + 2 * n, Some(f), body));
    assert(walk_chunks(b, 12, None, Seq::empty()) == walk_chunks(b, 36, Some(f), Seq::empty()));
    assert forall|r: Result<WavSamples, WavError>|
        #[trigger] samples_spec(1u16, 16u16, samples_le(samples), r) implies (r matches Ok(
            WavSamples::Pcm16(v),
        ) && v@ == samples) by {
        if let Ok(WavSamples::Pcm16(v)) = r {
            assert forall|i: int| 0 <= i < samples.len() implies v@[i] == samples[i] by {
                lemma_pcm16_at_samples_le(samples, i);
            }
            assert(v@ =~= samples);
        }
    }
}

/// The samples of a supported encoding as stored: signed integers of the
/// encoding's width, or the bit patterns of 32-bit floats.
#[derive(Debug, Clone, PartialEq, Eq)]
pub enum WavSamples {
    Pcm16(Vec<i16>),
    Pcm24(Vec<i32>),
    Pcm32(Vec<i32>),
    Float32(Vec<u32>),
}

/// The signed value of the 16-bit little-endian sample `i`.
pub open spec fn pcm16_at(d: Seq<u8>, i: int) -> int {
    let u = d[2 * i] + 256 * d[2 * i + 1];
    if d[2 * i + 1] >= 128 {
        u - 65536
    } else {
        u
    }
}

/// The signed value of the 24-bit little-endian sample `i`.
pub open spec fn pcm24_at(d: Seq<u8>, i: int) -> int {
    let u = d[3 * i] + 256 * d[3 * i + 1] + 65536 * d[3 * i + 2];
    if d[3 * i + 2] >= 128 {
        u - 16777216
    } else {
        u
    }
}

/// The unsigned value of the 32-bit little-endian word `i`.
pub open spec fn word32_at(d: Seq<u8>, i: int) -> int {
    d[4 * i] + 256 * d[4 * i + 1] + 65536 * d[4 * i + 2] + 16777216 * d[4 * i + 3]
}

/// The signed value of the 32-bit little-endian sample `i`.
pub open spec fn pcm32_at(d: Seq<u8>, i: int) -> int {
    if d[4 * i + 3] >= 128 {
        word32_at(d, i) - 4294967296
    } else {
        word32_at(d, i)
    }
}

/// The samples of `data` in the given encoding, whole samples only (a
/// trailing partial sample is ignored); an error for other encodings.
pub open spec fn samples_spec(audio_format: u16, bits: u16, data: Seq<u8>, r: Result<WavSamples, WavError>) -> bool {
    if audio_format == 1 && bits == 16 {
        r matches Ok(WavSamples::Pcm16(v)) && v@.len() == data.len() / 2 && forall|i: int|
            0 <= i < v@.len() ==> v@[i] as int == pcm16_at(data, i)
    } else if audio_format == 1 && bits == 24 {
        r matches Ok(WavSamples::Pcm24(v)) && v@.len() == data.len() / 3 && forall|i: int|
            0 <= i < v@.len() ==> v@[i] as int == pcm24_at(data, i)
    } else if audio_format == 1 && bits == 32 {
        r matches Ok(WavSamples::Pcm32(v)) && v@.len() == data.len() / 4 && forall|i: int|
            0 <= i < v@.len() ==> v@[i] as int == pcm32_at(data, i)
    } else if audio_format == 3 && bits == 32 {
        r matches Ok(WavSamples::Float32(v)) && v@.len() == data.len() / 4 && forall|i: int|
            0 <= i < v@.len() ==> v@[i] as int == word32_at(data, i)
    } else {
        r == Err::<WavSamples, WavError>(WavError::Unsupported { audio_format, bits_per_sample: bits })
    }
}

/// Splits sample bytes into the samples of their encoding.
pub fn decode_wav_samples(audio_format: u16, bits_per_sample: u16, data: &[u8]) -> (r: Result<WavSamples, WavError>)
    ensures
        samples_spec(audio_format, bits_per_sample, data@, r),
{
    let n = data.len();
    if audio_format == 1 && bits_per_sample == 16 {
        let mut v: Vec<i16> = Vec::new();
        let mut i: usize = 0;
        while i < n / 2
            invariant
                n == data@.len(),
                i <= n / 2,
                v@.len() == i,
                forall|j: int| 0 <= j < i ==> v@[j] as int == pcm16_at(data@, j),
            decreases n / 2 - i,
        {
            let lo = data[2 * i] as i32;
            let hi = data[2 * i + 1] as i32;
            let value: i32 = if hi >= 128 {
                lo + 256 * hi - 65536
            } else {
                lo + 256 * hi
            };
            v.push(value as i16);
            i = i + 1;
        }
        Ok(WavSamples::Pcm16(v))
    } else if audio_format == 1 && bits_per_sample == 24 {
        let mut v: Vec<i32> = Vec::new();
        let mut i: usize = 0;
        while i < n / 3
            invariant
                n == data@.len(),
                i <= n / 3,
                v@.len() == i,
                forall|j: int| 0 <= j < i ==> v@[j] as int == pcm24_at(data@, j),
            decreases n / 3 - i,
        {
            let b0 = data[3 * i] as i32;
            let b1 = data[3 * i + 1] as i32;
            let b2 = data[3 * i + 2] as i32;
            let value: i32 = if b2 >= 128 {
                b0 + 256 * b1 + 65536 * b2 - 16777216
            } else {
                b0 + 256 * b1 + 65536 * b2
            };
            v.push(value);
            i = i + 1;
        }
        Ok(WavSamples::Pcm24(v))
    } else if (audio_format == 1 || audio_format == 3) && bits_per_sample == 32 {
        let mut words: Vec<u32> = Vec::new();
        let mut values: Vec<i32> = Vec::new();
        let mut i: usize = 0;
        while i < n / 4
            invariant
                n == data@.len(),
                i <= n / 4,
                words@.len() == i,
                values@.len() == i,
                forall|j: int| 0 <= j < i ==> words@[j] as int == word32_at(data@, j),
                forall|j: int| 0 <= j < i ==> values@[j] as int == pcm32_at(data@, j),
            decreases n / 4 - i,
        {
            let b0 = data[4 * i] as u64;
            let b1 = data[4 * i + 1] as u64;
            let b2 = data[4 * i + 2] as u64;
            let b3 = data[4 * i + 3] as u64;
            let word: u64 = b0 + 256 * b1 + 65536 * b2 + 16777216 * b3;
            let signed: i64 = if b3 >= 128 {
                word as i64 - 4294967296
            } else {
                word as i64
            };
            words.push(word as u32);
            values.push(signed as i32);
            i = i + 1;
        }
        if audio_format == 1 {
            Ok(WavSamples::Pcm32(values))
        } else {
            Ok(WavSamples::Float32(words))
        }
    } else {
        Err(WavError::Unsupported { audio_format, bits_per_sample })
    }
}

} // verus!
