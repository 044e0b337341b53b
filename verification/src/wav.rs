//! Parsing of the RIFF/WAVE header that precedes the 16-bit mono PCM data
//! of a sample file, and position arithmetic inside that PCM data.
use vstd::prelude::*;

use crate::Error;

verus! {

/// Where the PCM data of a wav file lies, and its sample rate.
#[derive(Clone, Copy, Debug, PartialEq, Eq, Structural)]
pub struct WavInfo {
    /// byte offset of the first PCM byte
    pub pcm_start: u64,
    /// length of the PCM data in bytes
    pub pcm_len: u64,
    /// frames per second
    pub sample_rate: u32,
}

/// Why a header scan stopped without a result.
#[derive(Clone, Copy, Debug, PartialEq, Eq, Structural)]
pub enum ScanFail {
    /// a field held a value other than the one required
    BadFormat,
    /// the file ended before the scan was done
    Eof,
}

pub open spec fn u16_le(b: Seq<u8>, p: int) -> int {
    b[p] as int + b[p + 1] as int * 256
}

pub open spec fn u32_le(b: Seq<u8>, p: int) -> int {
    b[p] as int + b[p + 1] as int * 256 + b[p + 2] as int * 65536 + b[p + 3] as int * 16777216
}

/// The four bytes at `p` are `t0 t1 t2 t3`.
pub open spec fn tag_at(b: Seq<u8>, p: int, t0: u8, t1: u8, t2: u8, t3: u8) -> bool {
    &&& b[p] == t0
    &&& b[p + 1] == t1
    &&& b[p + 2] == t2
    &&& b[p + 3] == t3
}

pub open spec fn is_riff(b: Seq<u8>, p: int) -> bool {
    tag_at(b, p, 0x52, 0x49, 0x46, 0x46)
}

pub open spec fn is_wave(b: Seq<u8>, p: int) -> bool {
    tag_at(b, p, 0x57, 0x41, 0x56, 0x45)
}

pub open spec fn is_fmt(b: Seq<u8>, p: int) -> bool {
    tag_at(b, p, 0x66, 0x6d, 0x74, 0x20)
}

pub open spec fn is_data(b: Seq<u8>, p: int) -> bool {
    tag_at(b, p, 0x64, 0x61, 0x74, 0x61)
}

/// The bytes from `p` on that the scan has not yet passed (none once past the end).
pub open spec fn rest(b: Seq<u8>, p: int) -> nat {
    if p <= b.len() {
        (b.len() - p) as nat
    } else {
        0
    }
}

/// What the `fmt ` chunk whose id starts at `p` yields: the sample rate, or why it is refused.
/// Fields are read in file order; the first one that is missing or wrong decides.
pub open spec fn fmt_chunk(b: Seq<u8>, p: int) -> Result<int, ScanFail> {
    if p + 8 > b.len() {
        Err(ScanFail::Eof)
    } else if u32_le(b, p + 4) != 16 {
        Err(ScanFail::BadFormat)
    } else if p + 10 > b.len() {
        Err(ScanFail::Eof)
    } else if u16_le(b, p + 8) != 1 {
        // integer PCM
        Err(ScanFail::BadFormat)
    } else if p + 12 > b.len() {
        Err(ScanFail::Eof)
    } else if u16_le(b, p + 10) != 1 {
        // one channel
        Err(ScanFail::BadFormat)
    } else if p + 16 > b.len() {
        Err(ScanFail::Eof)
    } else if p + 24 > b.len() {
        // byte rate and block align are passed over
        Err(ScanFail::Eof)
    } else if u16_le(b, p + 22) != 16 {
        // 16 bits per sample
        Err(ScanFail::BadFormat)
    } else {
        Ok(u32_le(b, p + 12))
    }
}

/// The header scan from position `p`, with `found` of the three required chunks
/// (`RIFF`/`WAVE`, `fmt `, `data`) met so far, each meeting counting once, and the
/// values gathered so far. Unknown chunks are passed over by their declared size; the
/// scan resumes right after the size field of `data`.
pub open spec fn scan(b: Seq<u8>, p: int, found: nat, start: int, len: int, rate: int) -> Result<
    (int, int, int),
    ScanFail,
>
    decreases rest(b, p),
{
    if found >= 3 {
        Ok((start, len, rate))
    } else if p < 0 || p + 4 > b.len() {
        Err(ScanFail::Eof)
    } else if is_riff(b, p) {
        if p + 12 > b.len() {
            Err(ScanFail::Eof)
        } else if !is_wave(b, p + 8) {
            Err(ScanFail::BadFormat)
        } else {
            scan(b, p + 12, found + 1, start, len, rate)
        }
    } else if is_fmt(b, p) {
        match fmt_chunk(b, p) {
            Ok(r) => scan(b, p + 24, found + 1, start, len, r),
            Err(e) => Err(e),
        }
    } else if is_data(b, p) {
        if p + 8 > b.len() {
            Err(ScanFail::Eof)
        } else {
            scan(b, p + 8, found + 1, p + 8, u32_le(b, p + 4), rate)
        }
    } else {
        if p + 8 > b.len() {
            Err(ScanFail::Eof)
        } else {
            scan(b, p + 8 + u32_le(b, p + 4), found, start, len, rate)
        }
    }
}

/// What the header of the file `b` gives.
pub open spec fn wav_header(b: Seq<u8>) -> Result<(int, int, int), ScanFail> {
    scan(b, 0, 0, 0, 0, 0)
}

pub open spec fn error_of<E>(f: ScanFail) -> Error<E> {
    match f {
        ScanFail::BadFormat => Error::BadFormat,
        ScanFail::Eof => Error::DataNotFound,
    }
}


/// Byte `k` (0 to 3) of `x` in little-endian order.
pub open spec fn byte_of(x: int, k: int) -> u8 {
    if k == 0 {
        (x % 256) as u8
    } else if k == 1 {
        (x / 256 % 256) as u8
    } else if k == 2 {
        (x / 65536 % 256) as u8
    } else {
        (x / 16777216 % 256) as u8
    }
}

/// Byte `i` of the usual 44-byte header of a 16-bit mono integer PCM wav with
/// `data_len` bytes of data at sample rate `rate`: `RIFF`/`WAVE`, then `fmt `, then `data`.
pub open spec fn plain_header_byte(i: int, rate: u32, data_len: u32) -> u8 {
    if i < 4 {
        seq![0x52u8, 0x49, 0x46, 0x46][i]
    } else if i < 8 {
        byte_of(36 + data_len, i - 4)
    } else if i < 12 {
        seq![0x57u8, 0x41, 0x56, 0x45][i - 8]
    } else if i < 16 {
        seq![0x66u8, 0x6d, 0x74, 0x20][i - 12]
    } else if i < 20 {
        byte_of(16, i - 16)
    } else if i < 22 {
        byte_of(1, i - 20)
    } else if i < 24 {
        byte_of(1, i - 22)
    } else if i < 28 {
        byte_of(rate as int, i - 24)
    } else if i < 32 {
        byte_of(rate * 2, i - 28)
    } else if i < 34 {
        byte_of(2, i - 32)
    } else if i < 36 {
        byte_of(16, i - 34)
    } else if i < 40 {
        seq![0x64u8, 0x61, 0x74, 0x61][i - 36]
    } else {
        byte_of(data_len as int, i - 40)
    }
}

pub open spec fn plain_header(rate: u32, data_len: u32) -> Seq<u8> {
    Seq::new(44, |i: int| plain_header_byte(i, rate, data_len))
}

proof fn lemma_u32_of_bytes(x: u32)
    ensures
        x == byte_of(x as int, 0) + byte_of(x as int, 1) * 256 + byte_of(x as int, 2) * 65536
            + byte_of(x as int, 3) * 16777216,
{
    let x0 = x % 256;
    let x1 = x / 256 % 256;
    let x2 = x / 65536 % 256;
    let x3 = x / 16777216 % 256;
    assert(x == x0 + x1 * 256 + x2 * 65536 + x3 * 16777216) by (bit_vector)
        requires
            x0 == x % 256,
            x1 == x / 256 % 256,
            x2 == x / 65536 % 256,
            x3 == x / 16777216 % 256,
    ;
}

/// A file that begins with the usual header of a 16-bit mono PCM wav is accepted,
/// with its PCM data starting right after the header, of the declared length and rate.
pub proof fn lemma_plain_header_parses(rate: u32, data_len: u32, pcm: Seq<u8>)
    ensures
        wav_header(plain_header(rate, data_len) + pcm) == Ok::<(int, int, int), ScanFail>(
            (44, data_len as int, rate as int),
        ),
{
    let h = plain_header(rate, data_len);
    let b = h + pcm;
    assert forall|i: int| 0 <= i < 44 implies b[i] == plain_header_byte(i, rate, data_len) by {
        assert(b[i] == h[i]);
    }
    lemma_u32_of_bytes(rate);
    lemma_u32_of_bytes(data_len);
    assert(b[16] == 16 && b[17] == 0 && b[18] == 0 && b[19] == 0);
    assert(u32_le(b, 16) == 16);
    assert(b[20] == 1 && b[21] == 0);
    assert(b[22] == 1 && b[23] == 0);
    assert(b[34] == 16 && b[35] == 0);
    assert(b[24] == byte_of(rate as int, 0) && b[25] == byte_of(rate as int, 1));
    assert(b[26] == byte_of(rate as int, 2) && b[27] == byte_of(rate as int, 3));
    assert(u32_le(b, 24) == rate);
    assert(b[40] == byte_of(data_len as int, 0) && b[41] == byte_of(data_len as int, 1));
    assert(b[42] == byte_of(data_len as int, 2) && b[43] == byte_of(data_len as int, 3));
    assert(u32_le(b, 40) == data_len);
    assert(is_riff(b, 0));
    assert(is_wave(b, 8));
    assert(is_fmt(b, 12));
    assert(fmt_chunk(b, 12) == Ok::<int, ScanFail>(rate as int));
    assert(is_data(b, 36));
    assert(scan(b, 44, 3, 44, data_len as int, rate as int) == Ok::<(int, int, int), ScanFail>(
        (44, data_len as int, rate as int),
    ));
    assert(scan(b, 36, 2, 0, 0, rate as int) == scan(b, 44, 3, 44, data_len as int, rate as int));
    assert(scan(b, 12, 1, 0, 0, 0) == scan(b, 36, 2, 0, 0, rate as int));
}

fn read_u16_le(b: &[u8], p: usize) -> (r: u16)
    requires
        p + 2 <= b@.len(),
    ensures
        r == u16_le(b@, p as int),
{
    b[p] as u16 + b[p + 1] as u16 * 256
}

fn read_u32_le(b: &[u8], p: usize) -> (r: u32)
    requires
        p + 4 <= b@.len(),
    ensures
        r == u32_le(b@, p as int),
{
    b[p] as u32 + b[p + 1] as u32 * 256 + b[p + 2] as u32 * 65536 + b[p + 3] as u32 * 16777216
}

fn tag_matches(b: &[u8], p: usize, t0: u8, t1: u8, t2: u8, t3: u8) -> (r: bool)
    requires
        p + 4 <= b@.len(),
    ensures
        r == tag_at(b@, p as int, t0, t1, t2, t3),
{
    b[p] == t0 && b[p + 1] == t1 && b[p + 2] == t2 && b[p + 3] == t3
}

fn read_fmt_chunk(b: &[u8], p: usize) -> (r: Result<u32, ScanFail>)
    requires
        p + 4 <= b@.len(),
    ensures
        match r {
            Ok(v) => fmt_chunk(b@, p as int) == Ok::<int, ScanFail>(v as int),
            Err(e) => fmt_chunk(b@, p as int) == Err::<int, ScanFail>(e),
        },
{
    let n = b.len();
    if n - p < 8 {
        return Err(ScanFail::Eof);
    }
    if read_u32_le(b, p + 4) != 16 {
        return Err(ScanFail::BadFormat);
    }
    if n - p < 10 {
        return Err(ScanFail::Eof);
    }
    if read_u16_le(b, p + 8) != 1 {
        return Err(ScanFail::BadFormat);
    }
    if n - p < 12 {
        return Err(ScanFail::Eof);
    }
    if read_u16_le(b, p + 10) != 1 {
        return Err(ScanFail::BadFormat);
    }
    if n - p < 16 {
        return Err(ScanFail::Eof);
    }
    let rate = read_u32_le(b, p + 12);
    if n - p < 24 {
        return Err(ScanFail::Eof);
    }
    if read_u16_le(b, p + 22) != 16 {
        return Err(ScanFail::BadFormat);
    }
    Ok(rate)
}

/// Scans the header of the wav file whose bytes are `b`, as the onset loader does:
/// it needs a `RIFF` chunk of form `WAVE`, a `fmt ` chunk for 16-bit mono integer PCM
/// and a `data` chunk, in any order, and gives where the PCM data lies and its rate.
/// A file that ends before all three were met gives `DataNotFound`; a required field
/// with another value gives `BadFormat`.
pub fn parse_wav<E>(b: &[u8]) -> (r: Result<WavInfo, Error<E>>)
    ensures
        match wav_header(b@) {
            Ok((start, len, rate)) => r == Ok::<WavInfo, Error<E>>(
                WavInfo { pcm_start: start as u64, pcm_len: len as u64, sample_rate: rate as u32 },
            ),
            Err(f) => r == Err::<WavInfo, Error<E>>(error_of(f)),
        },
        r is Ok ==> {
            &&& r->Ok_0.pcm_start <= b@.len()
            &&& r->Ok_0.pcm_len <= u32::MAX
        },
{
    let n = b.len();
    let mut p: usize = 0;
    let mut found: u8 = 0;
    let mut start: u64 = 0;
    let mut len: u64 = 0;
    let mut rate: u32 = 0;
    while found < 3
        invariant
            n == b@.len(),
            p <= n,
            found <= 3,
            start <= n,
            len <= u32::MAX,
            scan(b@, p as int, found as nat, start as int, len as int, rate as int) == wav_header(b@),
        decreases n - p,
    {
        if n - p < 4 {
            return Err(Error::DataNotFound);
        }
        if tag_matches(b, p, 0x52, 0x49, 0x46, 0x46) {
            if n - p < 12 {
                return Err(Error::DataNotFound);
            }
            if !tag_matches(b, p + 8, 0x57, 0x41, 0x56, 0x45) {
                return Err(Error::BadFormat);
            }
            p = p + 12;
            found = found + 1;
        } else if tag_matches(b, p, 0x66, 0x6d, 0x74, 0x20) {
            match read_fmt_chunk(b, p) {
                Ok(v) => {
                    rate = v;
                    p = p + 24;
                    found = found + 1;
                },
                Err(ScanFail::BadFormat) => {
                    return Err(Error::BadFormat);
                },
                Err(ScanFail::Eof) => {
                    return Err(Error::DataNotFound);
                },
            }
        } else if tag_matches(b, p, 0x64, 0x61, 0x74, 0x61) {
            if n - p < 8 {
                return Err(Error::DataNotFound);
            }
            len = read_u32_le(b, p + 4) as u64;
            p = p + 8;
            start = p as u64;
            found = found + 1;
        } else {
            if n - p < 8 {
                return Err(Error::DataNotFound);
            }
            let size = read_u32_le(b, p + 4) as usize;
            if size > n - p - 8 {
                // the chunk runs past the end of the file
                proof {
                    assert(scan(b@, p + 8 + size, found as nat, start as int, len as int, rate as int)
                        == Err::<(int, int, int), ScanFail>(ScanFail::Eof));
                }
                return Err(Error::DataNotFound);
            }
            p = p + 8 + size;
        }
    }
    Ok(WavInfo { pcm_start: start, pcm_len: len, sample_rate: rate })
}


/// The scan of a oneshot player, which looks only for the `data` chunk: from position
/// `p`, the offsets of the first PCM byte and just past the PCM data, or why there is
/// none. A `RIFF` chunk must be of form `WAVE`; every other chunk is passed over by its
/// declared size.
pub open spec fn data_scan(b: Seq<u8>, p: int) -> Result<(int, int), ScanFail>
    decreases rest(b, p),
{
    if p < 0 || p + 4 > b.len() {
        Err(ScanFail::Eof)
    } else if is_riff(b, p) {
        if p + 12 > b.len() {
            Err(ScanFail::Eof)
        } else if !is_wave(b, p + 8) {
            Err(ScanFail::BadFormat)
        } else {
            data_scan(b, p + 12)
        }
    } else if is_data(b, p) {
        if p + 8 > b.len() {
            Err(ScanFail::Eof)
        } else {
            Ok((p + 8, p + 8 + u32_le(b, p + 4)))
        }
    } else {
        if p + 8 > b.len() {
            Err(ScanFail::Eof)
        } else {
            data_scan(b, p + 8 + u32_le(b, p + 4))
        }
    }
}

/// Where the PCM data of the wav file `b` starts and ends, found as `data_scan` says.
pub fn data_span<E>(b: &[u8]) -> (r: Result<(u64, u64), Error<E>>)
    ensures
        match data_scan(b@, 0) {
            Ok((start, end)) => r == Ok::<(u64, u64), Error<E>>((start as u64, end as u64)),
            Err(f) => r == Err::<(u64, u64), Error<E>>(error_of(f)),
        },
{
    let n = b.len();
    let mut p: usize = 0;
    loop
        invariant
            n == b@.len(),
            p <= n,
            data_scan(b@, p as int) == data_scan(b@, 0),
        decreases n - p,
    {
        if n - p < 4 {
            return Err(Error::DataNotFound);
        }
        if tag_matches(b, p, 0x52, 0x49, 0x46, 0x46) {
            if n - p < 12 {
                return Err(Error::DataNotFound);
            }
            if !tag_matches(b, p + 8, 0x57, 0x41, 0x56, 0x45) {
                return Err(Error::BadFormat);
            }
            p = p + 12;
        } else if tag_matches(b, p, 0x64, 0x61, 0x74, 0x61) {
            if n - p < 8 {
                return Err(Error::DataNotFound);
            }
            let size = read_u32_le(b, p + 4);
            let end: u128 = p as u128 + 8 + size as u128;
            return Ok(((p + 8) as u64, end as u64));
        } else {
            if n - p < 8 {
                return Err(Error::DataNotFound);
            }
            let size = read_u32_le(b, p + 4) as usize;
            if size > n - p - 8 {
                proof {
                    assert(data_scan(b@, p + 8 + size) == Err::<(int, int), ScanFail>(ScanFail::Eof));
                }
                return Err(Error::DataNotFound);
            }
            p = p + 8 + size;
        }
    }
}

/// The file offset that a seek by `offset` bytes into the looping PCM data lands on:
/// the offset taken modulo the data length (always non-negative), past the data start.
pub open spec fn seek_target(pcm_start: int, pcm_len: int, offset: int) -> int {
    pcm_start + offset % pcm_len
}

/// Where a seek to `offset` within the PCM data of `info` lands in the file.
pub fn seek_position(info: &WavInfo, offset: i64) -> (r: u64)
    requires
        0 < info.pcm_len <= i64::MAX,
        info.pcm_start + info.pcm_len <= u64::MAX,
    ensures
        r == seek_target(info.pcm_start as int, info.pcm_len as int, offset as int),
        info.pcm_start <= r < info.pcm_start + info.pcm_len,
{
    let len = info.pcm_len;
    if offset >= 0 {
        info.pcm_start + (offset as u64) % len
    } else {
        let n: u64 = (-(offset + 1)) as u64;
        let k = n % len;
        proof {
            lemma_negative_mod(offset as int, len as int, n as int);
        }
        info.pcm_start + (len - 1 - k)
    }
}

/// How many bytes a read looping within the PCM data takes next: as many as are
/// wanted, but none past the end of the data from position `pos` within it.
pub fn read_len(want: usize, pcm_len: u64, pos: u64) -> (r: usize)
    requires
        pos <= pcm_len,
    ensures
        r == if want < pcm_len - pos { want as int } else { pcm_len - pos },
{
    let rest = pcm_len - pos;
    if (want as u64) < rest {
        want
    } else {
        rest as usize
    }
}

proof fn lemma_negative_mod(offset: int, len: int, n: int)
    requires
        offset < 0,
        len > 0,
        n == -(offset + 1),
    ensures
        offset % len == len - 1 - n % len,
{
    let q = n / len;
    let k = n % len;
    vstd::arithmetic::div_mod::lemma_fundamental_div_mod(n, len);
    assert(n == q * len + k);
    assert(offset == -(q + 1) * len + (len - 1 - k)) by (nonlinear_arith)
        requires
            n == q * len + k,
            offset == -n - 1,
    ;
    vstd::arithmetic::div_mod::lemma_fundamental_div_mod_converse(offset, len, -(q + 1), len - 1 - k);
}

} // verus!
