//! A minimal PNG encoder for registered marker icons: one RGBA image stored in
//! uncompressed deflate blocks, with CRC-32 and Adler-32 checksums.
use vstd::prelude::*;

verus! {

/// The reflected CRC-32 polynomial.
pub const CRC32_POLY: u32 = 0xedb88320;
/// The Adler-32 modulus.
pub const ADLER_MOD: u32 = 65521;
/// The largest stored deflate block.
pub const MAX_STORED_BLOCK: usize = 65535;

// ---------------------------------------------------------------------------
// Checksums
// ---------------------------------------------------------------------------

/// One bit step of the reflected CRC-32 register.
pub open spec fn crc_round(c: u32) -> u32 {
    if c & 1 != 0 { (c >> 1) ^ CRC32_POLY } else { c >> 1 }
}

pub open spec fn crc_rounds(c: u32, k: nat) -> u32
    decreases k,
{
    if k == 0 { c } else { crc_round(crc_rounds(c, (k - 1) as nat)) }
}

/// The register after all of `bytes`, starting from all ones.
pub open spec fn crc_register(bytes: Seq<u8>) -> u32
    decreases bytes.len(),
{
    if bytes.len() == 0 {
        0xffff_ffffu32
    } else {
        crc_rounds(crc_register(bytes.drop_last()) ^ (bytes.last() as u32), 8)
    }
}

/// The CRC-32 (IEEE 802.3) of `bytes`.
pub open spec fn crc32_spec(bytes: Seq<u8>) -> u32 {
    !crc_register(bytes)
}

/// The CRC-32 (IEEE 802.3) of `bytes`.
pub fn crc32(bytes: &[u8]) -> (r: u32)
    ensures
        r == crc32_spec(bytes@),
{
    let mut crc: u32 = 0xffff_ffff;
    let mut i: usize = 0;
    while i < bytes.len()
        invariant
            i <= bytes@.len(),
            crc == crc_register(bytes@.subrange(0, i as int)),
        decreases bytes@.len() - i,
    {
        proof {
            assert(bytes@.subrange(0, i + 1).drop_last() =~= bytes@.subrange(0, i as int));
        }
        let start = crc ^ (bytes[i] as u32);
        crc = start;
        let mut k: usize = 0;
        while k < 8
            invariant
                k <= 8,
                crc == crc_rounds(start, k as nat),
            decreases 8 - k,
        {
            crc = if crc & 1 != 0 { (crc >> 1) ^ CRC32_POLY } else { crc >> 1 };
            k = k + 1;
        }
        i = i + 1;
    }
    assert(bytes@.subrange(0, bytes@.len() as int) =~= bytes@);
    !crc
}

/// The running Adler-32 sums `(a, b)` after `bytes`.
pub open spec fn adler_sums(bytes: Seq<u8>) -> (u32, u32)
    decreases bytes.len(),
{
    if bytes.len() == 0 {
        (1u32, 0u32)
    } else {
        let (a0, b0) = adler_sums(bytes.drop_last());
        let a = ((a0 + bytes.last()) % (ADLER_MOD as int)) as u32;
        let b = ((b0 + a) % (ADLER_MOD as int)) as u32;
        (a, b)
    }
}

/// The Adler-32 checksum of `bytes`.
pub open spec fn adler32_spec(bytes: Seq<u8>) -> u32 {
    (adler_sums(bytes).1 * 65536 + adler_sums(bytes).0) as u32
}

proof fn lemma_adler_sums_bounded(bytes: Seq<u8>)
    ensures
        adler_sums(bytes).0 < ADLER_MOD,
        adler_sums(bytes).1 < ADLER_MOD,
    decreases bytes.len(),
{
    if bytes.len() > 0 {
        lemma_adler_sums_bounded(bytes.drop_last());
    }
}

/// The Adler-32 checksum of `bytes`.
pub fn adler32(bytes: &[u8]) -> (r: u32)
    ensures
        r == adler32_spec(bytes@),
{
    let mut a: u32 = 1;
    let mut b: u32 = 0;
    let mut i: usize = 0;
    while i < bytes.len()
        invariant
            i <= bytes@.len(),
            (a, b) == adler_sums(bytes@.subrange(0, i as int)),
            a < ADLER_MOD,
            b < ADLER_MOD,
        decreases bytes@.len() - i,
    {
        proof {
            assert(bytes@.subrange(0, i + 1).drop_last() =~= bytes@.subrange(0, i as int));
        }
        a = (a + bytes[i] as u32) % ADLER_MOD;
        b = (b + a) % ADLER_MOD;
        i = i + 1;
    }
    assert(bytes@.subrange(0, bytes@.len() as int) =~= bytes@);
    assert((b << 16) | a == b * 65536 + a) by (bit_vector)
        requires
            a < 65536,
            b < 65536,
    ;
    (b << 16) | a
}

// ---------------------------------------------------------------------------
// Byte layouts
// ---------------------------------------------------------------------------

/// The big-endian bytes of a 32-bit value.
pub open spec fn be32(x: u32) -> Seq<u8> {
    seq![(x >> 24) as u8, ((x >> 16) & 0xff) as u8, ((x >> 8) & 0xff) as u8, (x & 0xff) as u8]
}

/// The little-endian bytes of a 16-bit value.
pub open spec fn le16(x: u16) -> Seq<u8> {
    seq![(x & 0xff) as u8, (x >> 8) as u8]
}

fn push_be32(out: &mut Vec<u8>, x: u32)
    ensures
        final(out)@ == old(out)@ + be32(x),
{
    out.push((x >> 24) as u8);
    out.push(((x >> 16) & 0xff) as u8);
    out.push(((x >> 8) & 0xff) as u8);
    out.push((x & 0xff) as u8);
    assert(out@ =~= old(out)@ + be32(x));
}

fn push_le16(out: &mut Vec<u8>, x: u16)
    ensures
        final(out)@ == old(out)@ + le16(x),
{
    out.push((x & 0xff) as u8);
    out.push((x >> 8) as u8);
    assert(out@ =~= old(out)@ + le16(x));
}

fn push_range(out: &mut Vec<u8>, data: &[u8], from: usize, to: usize)
    requires
        from <= to <= data@.len(),
    ensures
        final(out)@ == old(out)@ + data@.subrange(from as int, to as int),
{
    let mut i: usize = from;
    while i < to
        invariant
            from <= i <= to,
            to <= data@.len(),
            out@ == old(out)@ + data@.subrange(from as int, i as int),
        decreases to - i,
    {
        out.push(data[i]);
        i = i + 1;
        assert(out@ =~= old(out)@ + data@.subrange(from as int, i as int));
    }
}

fn push_all(out: &mut Vec<u8>, data: &[u8])
    ensures
        final(out)@ == old(out)@ + data@,
{
    let mut i: usize = 0;
    while i < data.len()
        invariant
            i <= data@.len(),
            out@ == old(out)@ + data@.subrange(0, i as int),
        decreases data@.len() - i,
    {
        out.push(data[i]);
        i = i + 1;
        assert(out@ =~= old(out)@ + data@.subrange(0, i as int));
    }
    assert(data@.subrange(0, data@.len() as int) =~= data@);
}

/// A PNG chunk: length, type, data, and the CRC-32 of type and data.
pub open spec fn png_chunk_bytes(kind: Seq<u8>, data: Seq<u8>) -> Seq<u8> {
    be32(data.len() as u32) + kind + data + be32(crc32_spec(kind + data))
}

/// Appends one PNG chunk.
pub fn png_chunk(output: &mut Vec<u8>, kind: &[u8; 4], data: &[u8])
    ensures
        final(output)@ == old(output)@ + png_chunk_bytes(kind@, data@),
{
    push_be32(output, data.len() as u32);
    push_all(output, kind.as_slice());
    push_all(output, data);
    let mut crc_input: Vec<u8> = Vec::new();
    push_all(&mut crc_input, kind.as_slice());
    push_all(&mut crc_input, data);
    let crc = crc32(crc_input.as_slice());
    push_be32(output, crc);
    assert(output@ =~= old(output)@ + png_chunk_bytes(kind@, data@));
}

/// Deflate stored blocks holding `raw`, at most 65535 bytes each, the last one final.
pub open spec fn stored_blocks(raw: Seq<u8>) -> Seq<u8>
    decreases raw.len(),
{
    if raw.len() <= MAX_STORED_BLOCK {
        seq![1u8] + le16(raw.len() as u16) + le16(!(raw.len() as u16)) + raw
    } else {
        seq![0u8] + le16(MAX_STORED_BLOCK as u16) + le16(!(MAX_STORED_BLOCK as u16)) + raw.subrange(0, MAX_STORED_BLOCK as int)
            + stored_blocks(raw.subrange(MAX_STORED_BLOCK as int, raw.len() as int))
    }
}

/// A zlib stream of stored blocks: header, blocks, Adler-32 of the data.
pub open spec fn zlib_stored(raw: Seq<u8>) -> Seq<u8> {
    seq![0x78u8, 0x01u8] + stored_blocks(raw) + be32(adler32_spec(raw))
}

/// The filtered scanlines of an image: each row of `row` bytes preceded by filter type 0.
pub open spec fn scanlines(rgba: Seq<u8>, row: nat, rows: nat) -> Seq<u8>
    decreases rows,
{
    if rows == 0 {
        Seq::empty()
    } else {
        scanlines(rgba, row, (rows - 1) as nat) + seq![0u8] + rgba.subrange(((rows - 1) * row) as int, (rows * row) as int)
    }
}

/// The PNG file signature.
pub open spec fn png_signature() -> Seq<u8> {
    seq![0x89u8, 0x50u8, 0x4eu8, 0x47u8, 0x0du8, 0x0au8, 0x1au8, 0x0au8]
}

pub open spec fn ihdr_type() -> Seq<u8> { seq![0x49u8, 0x48u8, 0x44u8, 0x52u8] }
pub open spec fn idat_type() -> Seq<u8> { seq![0x49u8, 0x44u8, 0x41u8, 0x54u8] }
pub open spec fn iend_type() -> Seq<u8> { seq![0x49u8, 0x45u8, 0x4eu8, 0x44u8] }

/// The image header of an 8-bit RGBA, non-interlaced image.
pub open spec fn ihdr_data(width: u32, height: u32) -> Seq<u8> {
    be32(width) + be32(height) + seq![8u8, 6u8, 0u8, 0u8, 0u8]
}

/// The PNG file encoding a `width` x `height` RGBA image.
pub open spec fn png_file(width: u32, height: u32, rgba: Seq<u8>) -> Seq<u8> {
    png_signature()
        + png_chunk_bytes(ihdr_type(), ihdr_data(width, height))
        + png_chunk_bytes(idat_type(), zlib_stored(scanlines(rgba, width as nat * 4, height as nat)))
        + png_chunk_bytes(iend_type(), Seq::empty())
}

/// Why an icon cannot be encoded; `None` when it can.
pub open spec fn icon_error(width: u32, height: u32, rgba_len: nat) -> Option<Seq<char>> {
    if width == 0 || height == 0 {
        Some("icon dimensions must be non-zero"@)
    } else if width as nat * 4 > usize::MAX || width as nat * 4 * height as nat > usize::MAX {
        Some("icon dimensions overflow"@)
    } else if rgba_len != width as nat * 4 * height as nat {
        Some("icon RGBA byte length does not match dimensions"@)
    } else {
        None
    }
}

fn stored_blocks_into(out: &mut Vec<u8>, raw: &Vec<u8>)
    requires
        raw@.len() > 0,
    ensures
        final(out)@ == old(out)@ + stored_blocks(raw@),
{
    let n = raw.len();
    let mut start: usize = 0;
    assert(raw@.subrange(0, n as int) =~= raw@);
    loop
        invariant
            n == raw@.len(),
            start < n,
            out@ + stored_blocks(raw@.subrange(start as int, n as int)) == old(out)@ + stored_blocks(raw@),
        decreases n - start,
    {
        let remaining = n - start;
        let ghost rest = raw@.subrange(start as int, n as int);
        if remaining <= MAX_STORED_BLOCK {
            let length = remaining as u16;
            out.push(1u8);
            push_le16(out, length);
            push_le16(out, !length);
            push_range(out, raw.as_slice(), start, n);
            assert(out@ =~= old(out)@ + stored_blocks(raw@));
            return;
        }
        let length = MAX_STORED_BLOCK as u16;
        let ghost before = out@;
        out.push(0u8);
        push_le16(out, length);
        push_le16(out, !length);
        push_range(out, raw.as_slice(), start, start + MAX_STORED_BLOCK);
        proof {
            assert(rest.subrange(0, MAX_STORED_BLOCK as int) =~= raw@.subrange(start as int, start + MAX_STORED_BLOCK));
            assert(rest.subrange(MAX_STORED_BLOCK as int, rest.len() as int)
                =~= raw@.subrange(start + MAX_STORED_BLOCK, n as int));
            assert(out@ =~= before + seq![0u8] + le16(length) + le16(!length) + rest.subrange(0, MAX_STORED_BLOCK as int));
        }
        start = start + MAX_STORED_BLOCK;
        proof {
            assert(before + stored_blocks(rest) =~= out@ + stored_blocks(raw@.subrange(start as int, n as int)));
        }
    }
}

/// Encodes an RGBA image (`width * height * 4` bytes, row by row) as a PNG file.
pub fn encode_rgba_png(width: u32, height: u32, rgba: &[u8]) -> (r: Result<Vec<u8>, &'static str>)
    ensures
        match icon_error(width, height, rgba@.len()) {
            Some(message) => r matches Err(m) && m@ == message,
            None => r matches Ok(png) && png@ == png_file(width, height, rgba@),
        },
{
    if width == 0 || height == 0 {
        return Err("icon dimensions must be non-zero");
    }
    let row = match (width as usize).checked_mul(4) {
        Some(row) => row,
        None => { return Err("icon dimensions overflow"); },
    };
    let expected = match row.checked_mul(height as usize) {
        Some(expected) => expected,
        None => { return Err("icon dimensions overflow"); },
    };
    if rgba.len() != expected {
        return Err("icon RGBA byte length does not match dimensions");
    }
    let mut raw: Vec<u8> = Vec::new();
    let mut line: usize = 0;
    while line < height as usize
        invariant
            row == width as nat * 4,
            expected == row * height as nat,
            rgba@.len() == expected,
            line <= height,
            raw@ == scanlines(rgba@, row as nat, line as nat),
        decreases height - line,
    {
        proof {
            assert(line * row + row <= expected) by (nonlinear_arith)
                requires
                    line + 1 <= height,
                    expected == row * height,
                    row >= 0,
            ;
            assert(line * row + row == (line + 1) * row) by (nonlinear_arith);
        }
        raw.push(0u8);
        push_range(&mut raw, rgba, line * row, line * row + row);
        line = line + 1;
        proof {
            assert(raw@ =~= scanlines(rgba@, row as nat, line as nat));
        }
    }
    let mut zlib: Vec<u8> = Vec::new();
    zlib.push(0x78u8);
    zlib.push(0x01u8);
    proof {
        assert(raw@.len() > 0);
    }
    stored_blocks_into(&mut zlib, &raw);
    push_be32(&mut zlib, adler32(raw.as_slice()));
    assert(zlib@ =~= zlib_stored(scanlines(rgba@, row as nat, height as nat)));
    let mut png: Vec<u8> = Vec::new();
    png.push(0x89u8);
    png.push(0x50u8);
    png.push(0x4eu8);
    png.push(0x47u8);
    png.push(0x0du8);
    png.push(0x0au8);
    png.push(0x1au8);
    png.push(0x0au8);
    let mut ihdr: Vec<u8> = Vec::new();
    push_be32(&mut ihdr, width);
    push_be32(&mut ihdr, height);
    ihdr.push(8u8);
    ihdr.push(6u8);
    ihdr.push(0u8);
    ihdr.push(0u8);
    ihdr.push(0u8);
    png_chunk(&mut png, &[0x49u8, 0x48u8, 0x44u8, 0x52u8], ihdr.as_slice());
    png_chunk(&mut png, &[0x49u8, 0x44u8, 0x41u8, 0x54u8], zlib.as_slice());
    let empty: Vec<u8> = Vec::new();
    png_chunk(&mut png, &[0x49u8, 0x45u8, 0x4eu8, 0x44u8], empty.as_slice());
    proof {
        assert(ihdr@ =~= ihdr_data(width, height));
        assert(empty@ =~= Seq::<u8>::empty());
    }
    assert(png@ =~= png_file(width, height, rgba@));
    Ok(png)
}

} // verus!
