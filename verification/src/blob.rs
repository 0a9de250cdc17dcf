//! The layout of `entries.bin`: a header (magic, format version, the JMdict
//! version and the generation time as length-prefixed UTF-8), the entry
//! count, an offset table of `(offset, length)` pairs and the serialized
//! entries one after another. All integers are little-endian.
use vstd::prelude::*;
use vstd::utf8::{decode_utf8, encode_utf8, encode_utf8_decode_utf8, valid_utf8};
use vstd::string::StringSliceAdditionalSpecFns;

use crate::error::JmdictError;
use crate::model::{DataVersion, FORMAT_VERSION, MAGIC};

verus! {

// ---------------------------------------------------------------------------
// Byte-level specifications
// ---------------------------------------------------------------------------

/// The magic bytes as a sequence.
pub open spec fn magic_bytes() -> Seq<u8> {
    seq![0x4Au8, 0x4Du8, 0x44u8, 0x46u8]
}

/// `v` as two little-endian bytes.
pub open spec fn le16(v: u16) -> Seq<u8> {
    seq![(v % 256) as u8, (v / 256) as u8]
}

/// `v` as four little-endian bytes.
pub open spec fn le32(v: u32) -> Seq<u8> {
    seq![
        (v % 256) as u8,
        ((v / 256) % 256) as u8,
        ((v / 65536) % 256) as u8,
        (v / 16777216) as u8,
    ]
}

/// The little-endian 16-bit value at `p`.
pub open spec fn u16_at(d: Seq<u8>, p: int) -> nat {
    (d[p] + 256 * d[p + 1]) as nat
}

/// The little-endian 32-bit value at `p`.
pub open spec fn u32_at(d: Seq<u8>, p: int) -> nat {
    (d[p] + 256 * d[p + 1] + 65536 * d[p + 2] + 16777216 * d[p + 3]) as nat
}

/// What `String::from_utf8_lossy` makes of a byte string.
pub uninterp spec fn utf8_lossy(b: Seq<u8>) -> Seq<char>;

/// The text of a byte string read as UTF-8: the decoded characters when
/// the bytes are valid UTF-8, otherwise what the lossy decoder makes of
/// them.
pub open spec fn lossy_text(b: Seq<u8>) -> Seq<char> {
    if valid_utf8(b) {
        decode_utf8(b)
    } else {
        utf8_lossy(b)
    }
}

/// The header of `entries.bin` for a JMdict version and a generation time.
/// The lengths are stored as 16-bit values (truncated, as the writer does).
pub open spec fn header_bytes(jmdict_version: Seq<char>, generated_at: Seq<char>) -> Seq<u8> {
    let jv = encode_utf8(jmdict_version);
    let ga = encode_utf8(generated_at);
    magic_bytes() + le32(FORMAT_VERSION) + le16(jv.len() as u16) + jv + le16(ga.len() as u16) + ga
}

/// The offset table for `payloads`: each payload's offset within the data
/// area and its length, eight bytes per payload.
pub open spec fn offset_table(payloads: Seq<Seq<u8>>) -> Seq<u8>
    decreases payloads.len(),
{
    if payloads.len() == 0 {
        seq![]
    } else {
        offset_table(payloads.drop_last()) + le32(data_len(payloads.drop_last()) as u32) + le32(
            payloads.last().len() as u32,
        )
    }
}

/// The payloads one after another.
pub open spec fn data_area(payloads: Seq<Seq<u8>>) -> Seq<u8>
    decreases payloads.len(),
{
    if payloads.len() == 0 {
        seq![]
    } else {
        data_area(payloads.drop_last()) + payloads.last()
    }
}

/// Total length of the payloads.
pub open spec fn data_len(payloads: Seq<Seq<u8>>) -> nat {
    data_area(payloads).len()
}

/// The whole `entries.bin` for a JMdict version, a generation time and the
/// serialized entries.
pub open spec fn blob_bytes(
    jmdict_version: Seq<char>,
    generated_at: Seq<char>,
    payloads: Seq<Seq<u8>>,
) -> Seq<u8> {
    header_bytes(jmdict_version, generated_at) + le32(payloads.len() as u32) + offset_table(payloads)
        + data_area(payloads)
}

// ---------------------------------------------------------------------------
// Reading the header
// ---------------------------------------------------------------------------

/// Why a header was refused.
pub enum HeaderFault {
    /// Not a data file, or a truncated one.
    Corrupted,
    /// A data file of another format version.
    VersionMismatch { found: u32 },
}

/// A header as plain values.
pub struct HeaderModel {
    pub jmdict_version: Seq<char>,
    pub generated_at: Seq<char>,
    /// Bytes before the entry count.
    pub header_size: nat,
}

/// What the header of `d` says, or why it is refused.
pub open spec fn parse_header_spec(d: Seq<u8>) -> Result<HeaderModel, HeaderFault> {
    if d.len() < 8 || d.take(4) != magic_bytes() {
        Err(HeaderFault::Corrupted)
    } else if u32_at(d, 4) != FORMAT_VERSION {
        Err(HeaderFault::VersionMismatch { found: u32_at(d, 4) as u32 })
    } else if d.len() < 10 {
        Err(HeaderFault::Corrupted)
    } else {
        let jl = u16_at(d, 8) as int;
        if d.len() < 10 + jl + 2 {
            Err(HeaderFault::Corrupted)
        } else {
            let gl = u16_at(d, 10 + jl) as int;
            if d.len() < 12 + jl + gl {
                Err(HeaderFault::Corrupted)
            } else {
                Ok(
                    HeaderModel {
                        jmdict_version: lossy_text(d.subrange(10, 10 + jl)),
                        generated_at: lossy_text(d.subrange(12 + jl, 12 + jl + gl)),
                        header_size: (12 + jl + gl) as nat,
                    },
                )
            }
        }
    }
}

/// A parsed header: the data version and how many bytes precede the entry
/// count.
#[derive(Debug)]
pub struct HeaderInfo {
    pub data_version: DataVersion,
    pub header_size: usize,
}

/// Whether an error is the library's form of a header fault.
pub open spec fn error_for_fault(e: &JmdictError, f: HeaderFault) -> bool {
    match f {
        HeaderFault::Corrupted => *e is DataCorrupted,
        HeaderFault::VersionMismatch { found } => *e == JmdictError::DataVersionMismatch {
            expected: FORMAT_VERSION,
            found,
        },
    }
}

/// Whether a parsed header holds the values of a header model.
pub open spec fn header_matches(h: HeaderInfo, m: HeaderModel) -> bool {
    &&& h.data_version.format_version == FORMAT_VERSION
    &&& h.data_version.jmdict_version@ == m.jmdict_version
    &&& h.data_version.generated_at@ == m.generated_at
    &&& h.header_size == m.header_size
}

/// `String::from_utf8_lossy` from std, made an owned `String`: for valid
/// UTF-8 the decoded characters, otherwise the characters with each invalid
/// sequence replaced by U+FFFD (left unsaid here beyond being a function
/// of the bytes).
#[verifier::external_body]
pub(crate) fn from_utf8_lossy(b: &[u8]) -> (r: String)
    ensures
        r@ == utf8_lossy(b@),
        valid_utf8(b@) ==> r@ == decode_utf8(b@),
{
    String::from_utf8_lossy(b).to_string()
}

/// The bytes `d[start..end]`.
pub fn byte_range(d: &[u8], start: usize, end: usize) -> (r: Vec<u8>)
    requires
        start <= end <= d.len(),
    ensures
        r@ == d@.subrange(start as int, end as int),
{
    let mut r: Vec<u8> = Vec::new();
    let mut k: usize = start;
    while k < end
        invariant
            start <= k <= end <= d.len(),
            r@ == d@.subrange(start as int, k as int),
        decreases end - k,
    {
        r.push(d[k]);
        k += 1;
        proof {
            assert(d@.subrange(start as int, k as int) =~= d@.subrange(start as int, k - 1).push(
                d@[k - 1],
            ));
        }
    }
    r
}

/// The little-endian 16-bit value at `p`.
pub fn read_u16(d: &[u8], p: usize) -> (r: u16)
    requires
        p + 2 <= d.len(),
    ensures
        r == u16_at(d@, p as int),
{
    d[p] as u16 + 256 * (d[p + 1] as u16)
}

/// The little-endian 32-bit value at `p`.
pub fn read_u32(d: &[u8], p: usize) -> (r: u32)
    requires
        p + 4 <= d.len(),
    ensures
        r == u32_at(d@, p as int),
{
    d[p] as u32 + 256 * (d[p + 1] as u32) + 65536 * (d[p + 2] as u32) + 16777216 * (d[p + 3] as u32)
}

/// Parse the entries.bin header: magic, format version, jmdict_version,
/// generated_at.
pub fn parse_entries_header(data: &[u8]) -> (r: Result<HeaderInfo, JmdictError>)
    ensures
        match (r, parse_header_spec(data@)) {
            (Ok(h), Ok(m)) => header_matches(h, m),
            (Err(e), Err(f)) => error_for_fault(&e, f),
            _ => false,
        },
{
    if data.len() < 8 {
        return Err(JmdictError::DataCorrupted);
    }
    if data[0] != MAGIC[0] || data[1] != MAGIC[1] || data[2] != MAGIC[2] || data[3] != MAGIC[3] {
        proof {
            assert(data@.take(4) != magic_bytes()) by {
                if data@.take(4) == magic_bytes() {
                    assert(data@.take(4)[0] == data@[0]);
                    assert(data@.take(4)[1] == data@[1]);
                    assert(data@.take(4)[2] == data@[2]);
                    assert(data@.take(4)[3] == data@[3]);
                }
            }
        }
        return Err(JmdictError::DataCorrupted);
    }
    assert(data@.take(4) =~= magic_bytes());
    let version = read_u32(data, 4);
    if version != FORMAT_VERSION {
        return Err(JmdictError::DataVersionMismatch { expected: FORMAT_VERSION, found: version });
    }
    // jmdict_version (u16 len + bytes)
    if data.len() < 10 {
        return Err(JmdictError::DataCorrupted);
    }
    let jmdict_ver_len = read_u16(data, 8) as usize;
    let mut pos: usize = 10;
    if data.len() < pos + jmdict_ver_len + 2 {
        return Err(JmdictError::DataCorrupted);
    }
    let jv_bytes = byte_range(data, pos, pos + jmdict_ver_len);
    let jmdict_version = from_utf8_lossy(jv_bytes.as_slice());
    pos += jmdict_ver_len;
    // generated_at (u16 len + bytes)
    let gen_at_len = read_u16(data, pos) as usize;
    pos += 2;
    if data.len() < pos + gen_at_len {
        return Err(JmdictError::DataCorrupted);
    }
    let ga_bytes = byte_range(data, pos, pos + gen_at_len);
    let generated_at = from_utf8_lossy(ga_bytes.as_slice());
    pos += gen_at_len;
    Ok(
        HeaderInfo {
            data_version: DataVersion { format_version: version, jmdict_version, generated_at },
            header_size: pos,
        },
    )
}

// ---------------------------------------------------------------------------
// Writing the blob
// ---------------------------------------------------------------------------

fn push_le16(out: &mut Vec<u8>, v: u16)
    ensures
        final(out)@ == old(out)@ + le16(v),
{
    out.push((v % 256) as u8);
    out.push((v / 256) as u8);
    assert(final(out)@ =~= old(out)@ + le16(v));
}

fn push_le32(out: &mut Vec<u8>, v: u32)
    ensures
        final(out)@ == old(out)@ + le32(v),
{
    out.push((v % 256) as u8);
    out.push(((v / 256) % 256) as u8);
    out.push(((v / 65536) % 256) as u8);
    out.push((v / 16777216) as u8);
    assert(final(out)@ =~= old(out)@ + le32(v));
}

fn push_bytes(out: &mut Vec<u8>, b: &[u8])
    ensures
        final(out)@ == old(out)@ + b@,
{
    let mut k: usize = 0;
    while k < b.len()
        invariant
            k <= b.len(),
            out@ == old(out)@ + b@.take(k as int),
        decreases b.len() - k,
    {
        out.push(b[k]);
        k += 1;
        proof {
            assert(b@.take(k as int) =~= b@.take(k - 1).push(b@[k - 1]));
        }
    }
    assert(b@.take(b.len() as int) =~= b@);
}

/// The header of `entries.bin`.
pub fn encode_header(jmdict_version: &str, generated_at: &str) -> (r: Vec<u8>)
    ensures
        r@ == header_bytes(jmdict_version@, generated_at@),
{
    let mut out: Vec<u8> = Vec::new();
    // magic bytes + format version
    out.push(MAGIC[0]);
    out.push(MAGIC[1]);
    out.push(MAGIC[2]);
    out.push(MAGIC[3]);
    push_le32(&mut out, FORMAT_VERSION);
    // jmdict_version (u16 len + bytes)
    let jv = jmdict_version.as_bytes();
    push_le16(&mut out, jv.len() as u16);
    push_bytes(&mut out, jv);
    // generated_at (u16 len + bytes)
    let ga = generated_at.as_bytes();
    push_le16(&mut out, ga.len() as u16);
    push_bytes(&mut out, ga);
    assert(out@ =~= header_bytes(jmdict_version@, generated_at@));
    out
}

/// The whole `entries.bin`: the header, the entry count, the offset table
/// and the serialized entries. Counts, offsets and lengths are stored as
/// 32-bit values (truncated, as the writer does).
pub fn encode_blob(jmdict_version: &str, generated_at: &str, payloads: &Vec<Vec<u8>>) -> (r: Vec<
    u8,
>)
    ensures
        r@ == blob_bytes(jmdict_version@, generated_at@, payloads@.map_values(|p: Vec<u8>| p@)),
{
    let ghost ps = payloads@.map_values(|p: Vec<u8>| p@);
    let mut out = encode_header(jmdict_version, generated_at);
    push_le32(&mut out, payloads.len() as u32);
    // offset table and data area
    let mut table: Vec<u8> = Vec::new();
    let mut data: Vec<u8> = Vec::new();
    let mut k: usize = 0;
    while k < payloads.len()
        invariant
            k <= payloads.len(),
            ps == payloads@.map_values(|p: Vec<u8>| p@),
            table@ == offset_table(ps.take(k as int)),
            data@ == data_area(ps.take(k as int)),
        decreases payloads.len() - k,
    {
        proof {
            assert(ps.take(k + 1).drop_last() =~= ps.take(k as int));
        }
        let offset = data.len() as u32;
        let len = payloads[k].len() as u32;
        push_le32(&mut table, offset);
        push_le32(&mut table, len);
        push_bytes(&mut data, payloads[k].as_slice());
        k += 1;
    }
    assert(ps.take(payloads.len() as int) =~= ps);
    push_bytes(&mut out, table.as_slice());
    push_bytes(&mut out, data.as_slice());
    assert(out@ =~= blob_bytes(jmdict_version@, generated_at@, ps));
    out
}

// ---------------------------------------------------------------------------
// Reading entries
// ---------------------------------------------------------------------------

/// Where the entry with index `id` lies in `d`, for a header of `hs` bytes:
/// `None` for an index past the entry count.
pub open spec fn entry_span_spec(d: Seq<u8>, hs: int, id: int) -> Option<(int, int)> {
    let count = u32_at(d, hs) as int;
    if id >= count {
        None
    } else {
        let oi = hs + 4 + id * 8;
        let start = hs + 4 + count * 8 + u32_at(d, oi);
        Some((start, start + u32_at(d, oi + 4)))
    }
}

/// Whether every read that locating entry `id` makes lies inside `d`.
pub open spec fn entry_readable(d: Seq<u8>, hs: int, id: int) -> bool {
    &&& 0 <= hs && hs + 4 <= d.len()
    &&& 0 <= id
    &&& id < u32_at(d, hs) ==> {
        &&& hs + 4 + id * 8 + 8 <= d.len()
        &&& entry_span_spec(d, hs, id).unwrap().1 <= d.len()
    }
}

/// The entry count stored after a header of `hs` bytes.
pub fn count_at(d: &[u8], hs: usize) -> (r: u32)
    requires
        hs + 4 <= d.len(),
    ensures
        r == u32_at(d@, hs as int),
{
    read_u32(d, hs)
}

/// The byte range of entry `id`, or `None` past the entry count. The offset
/// table and the data area start after the count.
pub fn entry_span(d: &[u8], hs: usize, id: u64) -> (r: Option<(usize, usize)>)
    requires
        entry_readable(d@, hs as int, id as int),
    ensures
        match (r, entry_span_spec(d@, hs as int, id as int)) {
            (Some((s, e)), Some((s2, e2))) => s == s2 && e == e2,
            (None, None) => true,
            _ => false,
        },
{
    let count = read_u32(d, hs);
    if id >= count as u64 {
        return None;
    }
    let idu = id as usize;
    assert(idu == id);
    assert(hs + 4 + id * 8 + 8 <= d.len());
    let offset_index = hs + 4 + idu * 8;
    let off = read_u32(d, offset_index);
    let len = read_u32(d, offset_index + 4);
    let data_start = hs + 4 + (count as usize) * 8;
    let start = data_start + (off as usize);
    let end = start + len as usize;
    Some((start, end))
}

// ---------------------------------------------------------------------------
// What a read gives back of a write
// ---------------------------------------------------------------------------

proof fn lemma_le32_read(v: u32)
    ensures
        u32_at(le32(v), 0) == v,
{
    let b = le32(v);
    assert(v as int == (v % 256) + 256 * ((v / 256) % 256) + 65536 * ((v / 65536) % 256) + 16777216 * (
    v / 16777216)) by (nonlinear_arith);
    assert(b[0] == v % 256);
    assert(b[1] == (v / 256) % 256);
    assert(b[2] == (v / 65536) % 256);
    assert(v / 16777216 < 256) by (nonlinear_arith);
    assert(b[3] == v / 16777216);
}

proof fn lemma_le16_read(v: u16)
    ensures
        u16_at(le16(v), 0) == v,
{
    let b = le16(v);
    assert(v as int == (v % 256) + 256 * (v / 256)) by (nonlinear_arith);
    assert(v / 256 < 256) by (nonlinear_arith);
    assert(b[1] == v / 256);
}

/// Reading at an offset into a concatenation reads the part there.
proof fn lemma_u32_at_concat(a: Seq<u8>, b: Seq<u8>, c: Seq<u8>)
    requires
        b.len() == 4,
    ensures
        u32_at(a + b + c, a.len() as int) == u32_at(b, 0),
{
    let d = a + b + c;
    assert(d[a.len() as int] == b[0]);
    assert(d[a.len() as int + 1] == b[1]);
    assert(d[a.len() as int + 2] == b[2]);
    assert(d[a.len() as int + 3] == b[3]);
}

proof fn lemma_u16_at_concat(a: Seq<u8>, b: Seq<u8>, c: Seq<u8>)
    requires
        b.len() == 2,
    ensures
        u16_at(a + b + c, a.len() as int) == u16_at(b, 0),
{
    let d = a + b + c;
    assert(d[a.len() as int] == b[0]);
    assert(d[a.len() as int + 1] == b[1]);
}

proof fn lemma_offset_table_len(ps: Seq<Seq<u8>>)
    ensures
        offset_table(ps).len() == 8 * ps.len(),
    decreases ps.len(),
{
    if ps.len() > 0 {
        lemma_offset_table_len(ps.drop_last());
    }
}

/// The table row of payload `i`: its offset (the length of the payloads
/// before it) and its length.
proof fn lemma_offset_table_row(ps: Seq<Seq<u8>>, i: int)
    requires
        0 <= i < ps.len(),
    ensures
        offset_table(ps).subrange(8 * i, 8 * i + 8) == le32(data_len(ps.take(i)) as u32) + le32(
            ps[i].len() as u32,
        ),
    decreases ps.len(),
{
    lemma_offset_table_len(ps.drop_last());
    if i == ps.len() - 1 {
        assert(ps.drop_last() =~= ps.take(i));
        assert(offset_table(ps).subrange(8 * i, 8 * i + 8) =~= le32(data_len(ps.take(i)) as u32)
            + le32(ps[i].len() as u32));
    } else {
        lemma_offset_table_row(ps.drop_last(), i);
        assert(ps.drop_last().take(i) =~= ps.take(i));
        assert(offset_table(ps).subrange(8 * i, 8 * i + 8) =~= offset_table(ps.drop_last()).subrange(
            8 * i,
            8 * i + 8,
        ));
    }
}

proof fn lemma_data_area_prefix(ps: Seq<Seq<u8>>, i: int)
    requires
        0 <= i <= ps.len(),
    ensures
        data_area(ps).take(data_len(ps.take(i)) as int) == data_area(ps.take(i)),
        data_len(ps.take(i)) <= data_len(ps),
    decreases ps.len(),
{
    if i == ps.len() {
        assert(ps.take(i) =~= ps);
        assert(data_area(ps).take(data_len(ps) as int) =~= data_area(ps));
    } else {
        lemma_data_area_prefix(ps.drop_last(), i);
        assert(ps.drop_last().take(i) =~= ps.take(i));
        assert(data_area(ps).take(data_len(ps.take(i)) as int) =~= data_area(ps.drop_last()).take(
            data_len(ps.take(i)) as int,
        ));
    }
}

/// Payload `i` lies in the data area right after the payloads before it.
proof fn lemma_data_area_slot(ps: Seq<Seq<u8>>, i: int)
    requires
        0 <= i < ps.len(),
    ensures
        data_len(ps.take(i)) + ps[i].len() <= data_len(ps),
        data_area(ps).subrange(data_len(ps.take(i)) as int, (data_len(ps.take(i)) + ps[i].len()) as int)
            == ps[i],
{
    lemma_data_area_prefix(ps, i + 1);
    assert(ps.take(i + 1).drop_last() =~= ps.take(i));
    let pre = data_area(ps.take(i + 1));
    assert(pre == data_area(ps.take(i)) + ps[i]);
    assert(data_area(ps).subrange(data_len(ps.take(i)) as int, (data_len(ps.take(i)) + ps[i].len()) as int)
        =~= pre.subrange(data_len(ps.take(i)) as int, (data_len(ps.take(i)) + ps[i].len()) as int));
}

/// A header whose fields are known parses to them.
proof fn lemma_parse_header_fields(d: Seq<u8>, jv: Seq<u8>, ga: Seq<u8>)
    requires
        d.len() >= 12 + jv.len() + ga.len(),
        d.take(4) == magic_bytes(),
        u32_at(d, 4) == FORMAT_VERSION,
        u16_at(d, 8) == jv.len(),
        u16_at(d, 10 + jv.len() as int) == ga.len(),
        d.subrange(10, 10 + jv.len() as int) == jv,
        d.subrange(12 + jv.len() as int, 12 + jv.len() as int + ga.len() as int) == ga,
    ensures
        parse_header_spec(d) == Ok::<HeaderModel, HeaderFault>(
            HeaderModel {
                jmdict_version: lossy_text(jv),
                generated_at: lossy_text(ga),
                header_size: 12 + jv.len() + ga.len(),
            },
        ),
{
}

/// Reading back a written header: whatever bytes follow it (the entry
/// count and entries of any size), the header gives the JMdict version and
/// generation time that were written and its own size, as long as the two
/// strings fit their 16-bit lengths.
pub proof fn lemma_header_read(jmdict_version: Seq<char>, generated_at: Seq<char>, rest: Seq<u8>)
    requires
        encode_utf8(jmdict_version).len() <= 0xffff,
        encode_utf8(generated_at).len() <= 0xffff,
    ensures
        header_bytes(jmdict_version, generated_at).len() == 12 + encode_utf8(jmdict_version).len()
            + encode_utf8(generated_at).len(),
        parse_header_spec(header_bytes(jmdict_version, generated_at) + rest) == Ok::<
            HeaderModel,
            HeaderFault,
        >(
            HeaderModel {
                jmdict_version: jmdict_version,
                generated_at: generated_at,
                header_size: header_bytes(jmdict_version, generated_at).len(),
            },
        ),
{
    let jv = encode_utf8(jmdict_version);
    let ga = encode_utf8(generated_at);
    let d = header_bytes(jmdict_version, generated_at) + rest;
    let jl = jv.len() as u16;
    let gl = ga.len() as u16;
    assert(jl == jv.len());
    assert(gl == ga.len());
    let p0 = magic_bytes();
    let p1 = p0 + le32(FORMAT_VERSION);
    let p2 = p1 + le16(jl) + jv;
    assert(d =~= p2 + le16(gl) + ga + rest);
    assert(d.take(4) =~= magic_bytes());
    assert(u32_at(d, 4) == FORMAT_VERSION) by {
        lemma_u32_at_concat(p0, le32(FORMAT_VERSION), d.skip(8));
        assert(p0 + le32(FORMAT_VERSION) + d.skip(8) =~= d);
        lemma_le32_read(FORMAT_VERSION);
    }
    assert(u16_at(d, 8) == jv.len()) by {
        lemma_u16_at_concat(p1, le16(jl), d.skip(10));
        assert(p1 + le16(jl) + d.skip(10) =~= d);
        lemma_le16_read(jl);
    }
    assert(u16_at(d, 10 + jv.len() as int) == ga.len()) by {
        lemma_u16_at_concat(p2, le16(gl), d.skip(12 + jv.len() as int));
        assert(p2 + le16(gl) + d.skip(12 + jv.len() as int) =~= d);
        lemma_le16_read(gl);
    }
    assert(d.subrange(10, 10 + jv.len() as int) =~= jv);
    assert(d.subrange(12 + jv.len() as int, 12 + jv.len() as int + ga.len() as int) =~= ga);
    lemma_parse_header_fields(d, jv, ga);
    vstd::utf8::encode_utf8_valid_utf8(jmdict_version);
    vstd::utf8::encode_utf8_valid_utf8(generated_at);
    encode_utf8_decode_utf8(jmdict_version);
    encode_utf8_decode_utf8(generated_at);
}

/// The entry count of a written blob reads back as written.
proof fn lemma_count_read(h: Seq<u8>, payloads: Seq<Seq<u8>>)
    requires
        payloads.len() <= 0xffff_ffff,
    ensures
        u32_at(h + le32(payloads.len() as u32) + offset_table(payloads) + data_area(payloads), h.len() as int)
            == payloads.len(),
{
    let n = payloads.len();
    let rest = offset_table(payloads) + data_area(payloads);
    let d = h + le32(n as u32) + offset_table(payloads) + data_area(payloads);
    assert(d =~= h + le32(n as u32) + rest);
    lemma_u32_at_concat(h, le32(n as u32), rest);
    lemma_le32_read(n as u32);
}

/// The table row of payload `i` reads back its offset and length.
proof fn lemma_row_read(h: Seq<u8>, payloads: Seq<Seq<u8>>, i: int)
    requires
        data_len(payloads) <= 0xffff_ffff,
        0 <= i < payloads.len(),
    ensures
        ({
            let d = h + le32(payloads.len() as u32) + offset_table(payloads) + data_area(payloads);
            let oi = h.len() + 4 + i * 8;
            &&& oi + 8 <= d.len()
            &&& u32_at(d, oi) == data_len(payloads.take(i))
            &&& u32_at(d, oi + 4) == payloads[i].len()
        }),
{
    let n = payloads.len();
    let d = h + le32(n as u32) + offset_table(payloads) + data_area(payloads);
    lemma_offset_table_len(payloads);
    lemma_offset_table_row(payloads, i);
    lemma_data_area_slot(payloads, i);
    lemma_data_area_prefix(payloads, i);
    let off = data_len(payloads.take(i));
    let len = payloads[i].len();
    let row = offset_table(payloads).subrange(8 * i, 8 * i + 8);
    let before = h + le32(n as u32) + offset_table(payloads).take(8 * i);
    let after = offset_table(payloads).skip(8 * i + 8) + data_area(payloads);
    assert(offset_table(payloads) =~= offset_table(payloads).take(8 * i) + row + offset_table(
        payloads,
    ).skip(8 * i + 8));
    assert(d =~= before + le32(off as u32) + (le32(len as u32) + after));
    lemma_u32_at_concat(before, le32(off as u32), le32(len as u32) + after);
    assert(before + le32(off as u32) + le32(len as u32) + after =~= before + le32(off as u32) + (
    le32(len as u32) + after));
    lemma_u32_at_concat(before + le32(off as u32), le32(len as u32), after);
    lemma_le32_read(off as u32);
    lemma_le32_read(len as u32);
}

/// The entry count and every entry of a written blob read back as written.
proof fn lemma_entries_read(h: Seq<u8>, payloads: Seq<Seq<u8>>, i: int)
    requires
        payloads.len() <= 0xffff_ffff,
        data_len(payloads) <= 0xffff_ffff,
        0 <= i < payloads.len(),
    ensures
        ({
            let d = h + le32(payloads.len() as u32) + offset_table(payloads) + data_area(payloads);
            let hs = h.len() as int;
            &&& u32_at(d, hs) == payloads.len()
            &&& entry_readable(d, hs, i)
            &&& entry_span_spec(d, hs, i) matches Some((s, e)) && d.subrange(s, e) == payloads[i]
        }),
{
    let n = payloads.len();
    let d = h + le32(n as u32) + offset_table(payloads) + data_area(payloads);
    let hs = h.len() as int;
    lemma_count_read(h, payloads);
    lemma_row_read(h, payloads, i);
    lemma_offset_table_len(payloads);
    lemma_data_area_slot(payloads, i);
    let off = data_len(payloads.take(i));
    let len = payloads[i].len();
    let start = hs + 4 + n * 8 + off;
    assert(entry_span_spec(d, hs, i) == Some((start, start + len)));
    assert(d.subrange(start, start + len) =~= data_area(payloads).subrange(
        off as int,
        (off + len) as int,
    ));
}

/// Reading back what was written: the header of a written blob gives the
/// JMdict version and generation time that were written, and the entry
/// count and every entry's bytes come back as written, as long as the
/// header strings fit their 16-bit lengths and the count, offsets and
/// lengths fit their 32-bit fields.
pub proof fn lemma_blob_round_trip(
    jmdict_version: Seq<char>,
    generated_at: Seq<char>,
    payloads: Seq<Seq<u8>>,
)
    requires
        encode_utf8(jmdict_version).len() <= 0xffff,
        encode_utf8(generated_at).len() <= 0xffff,
        payloads.len() <= 0xffff_ffff,
        data_len(payloads) <= 0xffff_ffff,
    ensures
        ({
            let d = blob_bytes(jmdict_version, generated_at, payloads);
            let hs = header_bytes(jmdict_version, generated_at).len() as int;
            &&& parse_header_spec(d) == Ok::<HeaderModel, HeaderFault>(
                HeaderModel {
                    jmdict_version: jmdict_version,
                    generated_at: generated_at,
                    header_size: hs as nat,
                },
            )
            &&& u32_at(d, hs) == payloads.len()
            &&& forall|i: int|
                0 <= i < payloads.len() ==> {
                    &&& entry_readable(d, hs, i)
                    &&& #[trigger] entry_span_spec(d, hs, i) matches Some((s, e)) && d.subrange(
                        s,
                        e,
                    ) == payloads[i]
                }
        }),
{
    let h = header_bytes(jmdict_version, generated_at);
    let n = payloads.len();
    let d = blob_bytes(jmdict_version, generated_at, payloads);
    let rest = le32(n as u32) + offset_table(payloads) + data_area(payloads);
    assert(d =~= h + rest);
    lemma_header_read(jmdict_version, generated_at, rest);
    assert(d == h + le32(n as u32) + offset_table(payloads) + data_area(payloads));
    if n > 0 {
        lemma_entries_read(h, payloads, 0);
    } else {
        let hs = h.len() as int;
        lemma_u32_at_concat(h, le32(n as u32), offset_table(payloads) + data_area(payloads));
        assert(d =~= h + le32(n as u32) + (offset_table(payloads) + data_area(payloads)));
        lemma_le32_read(n as u32);
    }
    assert forall|i: int| 0 <= i < payloads.len() implies {
        &&& entry_readable(d, h.len() as int, i)
        &&& #[trigger] entry_span_spec(d, h.len() as int, i) matches Some((s, e)) && d.subrange(
            s,
            e,
        ) == payloads[i]
    } by {
        lemma_entries_read(h, payloads, i);
    }
}

} // verus!
