//! The binary texture file that carries a surface's look-up texture: a fixed
//! 96-byte header, an all-black 16x16 DXT1 thumbnail, and the RGBA32F pixels.
use vstd::prelude::*;

verus! {

/// The texture flags: point sampling, clamp in S and T, no mipmaps, no LOD,
/// render target.
pub const VTF_FLAGS: u32 = 0x230d;

/// The pixel format code of RGBA32323232F.
pub const FORMAT_RGBA32F: u32 = 29;

/// The pixel format code of DXT1.
pub const FORMAT_DXT1: u32 = 13;

/// The bits of the float 1.0.
pub const ONE_BITS: u32 = 0x3f80_0000;

/// The size of the header, which is where the thumbnail starts.
pub const HEADER_SIZE: u32 = 96;

/// The size of the 16x16 DXT1 thumbnail.
pub const THUMB_SIZE: u32 = 128;

pub struct VtfParams {
    pub width: u16,
    pub height: u16,
}

#[derive(Clone, Copy, Debug, PartialEq, Eq, Structural)]
pub enum VtfError {
    /// The pixel data does not hold four values for each pixel.
    DataLength { expected: u64, got: u64 },
}

/// The four bytes of `n`, least significant first.
pub open spec fn le32(n: u32) -> Seq<u8> {
    seq![
        (n % 256) as u8,
        ((n / 256) % 256) as u8,
        ((n / 65536) % 256) as u8,
        (n / 16777216) as u8,
    ]
}

/// The two bytes of `n`, least significant first.
pub open spec fn le16(n: u16) -> Seq<u8> {
    seq![(n % 256) as u8, (n / 256) as u8]
}

pub open spec fn zeros(n: nat) -> Seq<u8> {
    Seq::new(n, |i: int| 0u8)
}

/// Each value's four bytes, in order.
pub open spec fn le32_all(d: Seq<u32>) -> Seq<u8>
    decreases d.len(),
{
    if d.len() == 0 {
        Seq::empty()
    } else {
        le32_all(d.drop_last()) + le32(d.last())
    }
}

/// The header for a texture of the given size and reflectivity (the bits of
/// three floats).
pub open spec fn vtf_header(p: VtfParams, refl: [u32; 3]) -> Seq<u8> {
    seq![0x56u8, 0x54u8, 0x46u8, 0u8] + le32(7) + le32(4) + le32(HEADER_SIZE) + le16(p.width) + le16(
        p.height,
    ) + le32(VTF_FLAGS) + le16(1) + le16(0) + zeros(4) + le32(refl@[0]) + le32(refl@[1]) + le32(
        refl@[2],
    ) + zeros(4) + le32(ONE_BITS) + le32(FORMAT_RGBA32F) + seq![1u8] + le32(FORMAT_DXT1) + seq![
        16u8,
        16u8,
    ] + le16(1) + zeros(3) + le32(2) + zeros(8) + seq![1u8, 0u8, 0u8, 0u8] + le32(HEADER_SIZE)
        + seq![0x30u8, 0u8, 0u8, 0u8] + le32((HEADER_SIZE + THUMB_SIZE) as u32)
}

/// The whole file.
pub open spec fn vtf_file(p: VtfParams, refl: [u32; 3], data: Seq<u32>) -> Seq<u8> {
    vtf_header(p, refl) + zeros(THUMB_SIZE as nat) + le32_all(data)
}

/// How many values the pixel data must hold.
pub open spec fn expected_len(p: VtfParams) -> nat {
    p.width as nat * p.height as nat * 4
}

/// Relies on byteorder's `LittleEndian::write_u32`: the four bytes of `n`,
/// least significant first.
#[verifier::external_body]
fn le_u32(n: u32) -> (b: [u8; 4])
    ensures
        b@ == le32(n),
{
    let mut b = [0u8; 4];
    <byteorder::LittleEndian as byteorder::ByteOrder>::write_u32(&mut b, n);
    b
}

/// Relies on byteorder's `LittleEndian::write_u16`: the two bytes of `n`,
/// least significant first.
#[verifier::external_body]
fn le_u16(n: u16) -> (b: [u8; 2])
    ensures
        b@ == le16(n),
{
    let mut b = [0u8; 2];
    <byteorder::LittleEndian as byteorder::ByteOrder>::write_u16(&mut b, n);
    b
}

fn put_u32(out: &mut Vec<u8>, n: u32)
    ensures
        final(out)@ == old(out)@ + le32(n),
{
    let b = le_u32(n);
    out.push(b[0]);
    out.push(b[1]);
    out.push(b[2]);
    out.push(b[3]);
    assert(final(out)@ =~= old(out)@ + le32(n));
}

fn put_u16(out: &mut Vec<u8>, n: u16)
    ensures
        final(out)@ == old(out)@ + le16(n),
{
    let b = le_u16(n);
    out.push(b[0]);
    out.push(b[1]);
    assert(final(out)@ =~= old(out)@ + le16(n));
}

fn put_zeros(out: &mut Vec<u8>, n: u32)
    ensures
        final(out)@ == old(out)@ + zeros(n as nat),
{
    let mut i: u32 = 0;
    while i < n
        invariant
            i <= n,
            out@ =~= old(out)@ + zeros(i as nat),
        decreases n - i,
    {
        out.push(0u8);
        i = i + 1;
    }
}

fn put_bytes(out: &mut Vec<u8>, b: &[u8])
    ensures
        final(out)@ == old(out)@ + b@,
{
    let mut i: usize = 0;
    while i < b.len()
        invariant
            i <= b@.len(),
            out@ =~= old(out)@ + b@.take(i as int),
        decreases b@.len() - i,
    {
        out.push(b[i]);
        i = i + 1;
    }
    assert(b@.take(b@.len() as int) =~= b@);
}

/// The header bytes.
pub fn vtf_header_bytes(params: &VtfParams, reflectivity: [u32; 3]) -> (r: Vec<u8>)
    ensures
        r@ == vtf_header(*params, reflectivity),
{
    let mut out: Vec<u8> = Vec::new();
    let sig: [u8; 4] = [0x56, 0x54, 0x46, 0];
    put_bytes(&mut out, &sig);
    assert(out@ =~= seq![0x56u8, 0x54u8, 0x46u8, 0u8]);
    put_u32(&mut out, 7);
    put_u32(&mut out, 4);
    put_u32(&mut out, HEADER_SIZE);
    put_u16(&mut out, params.width);
    put_u16(&mut out, params.height);
    put_u32(&mut out, VTF_FLAGS);
    put_u16(&mut out, 1);
    put_u16(&mut out, 0);
    put_zeros(&mut out, 4);
    put_u32(&mut out, reflectivity[0]);
    put_u32(&mut out, reflectivity[1]);
    put_u32(&mut out, reflectivity[2]);
    put_zeros(&mut out, 4);
    put_u32(&mut out, ONE_BITS);
    put_u32(&mut out, FORMAT_RGBA32F);
    let mips: [u8; 1] = [1];
    put_bytes(&mut out, &mips);
    assert(mips@ =~= seq![1u8]);
    put_u32(&mut out, FORMAT_DXT1);
    let thumb: [u8; 2] = [16, 16];
    put_bytes(&mut out, &thumb);
    assert(thumb@ =~= seq![16u8, 16u8]);
    put_u16(&mut out, 1);
    put_zeros(&mut out, 3);
    put_u32(&mut out, 2);
    put_zeros(&mut out, 8);
    let thumb_tag: [u8; 4] = [1, 0, 0, 0];
    put_bytes(&mut out, &thumb_tag);
    assert(thumb_tag@ =~= seq![1u8, 0u8, 0u8, 0u8]);
    put_u32(&mut out, HEADER_SIZE);
    let image_tag: [u8; 4] = [0x30, 0, 0, 0];
    put_bytes(&mut out, &image_tag);
    assert(image_tag@ =~= seq![0x30u8, 0u8, 0u8, 0u8]);
    put_u32(&mut out, HEADER_SIZE + THUMB_SIZE);
    out
}

/// Encode a texture of RGBA32F pixels given as the bits of their floats, four
/// per pixel, rows first; `reflectivity` holds the bits of the average red,
/// green and blue.
pub fn encode_vtf(params: &VtfParams, reflectivity: [u32; 3], data: &Vec<u32>) -> (r: Result<
    Vec<u8>,
    VtfError,
>)
    ensures
        match r {
            Ok(bytes) => data@.len() == expected_len(*params) && bytes@ == vtf_file(
                *params,
                reflectivity,
                data@,
            ),
            Err(e) => data@.len() != expected_len(*params) && e == VtfError::DataLength {
                expected: expected_len(*params) as u64,
                got: data@.len() as u64,
            },
        },
{
    let w = params.width as u64;
    let h = params.height as u64;
    assert(w * h <= 65535 * 65535) by (nonlinear_arith)
        requires
            w <= 65535,
            h <= 65535,
    ;
    let expected: u64 = w * h * 4;
    if data.len() as u64 != expected {
        return Err(VtfError::DataLength { expected, got: data.len() as u64 });
    }
    let mut out = vtf_header_bytes(params, reflectivity);
    put_zeros(&mut out, THUMB_SIZE);
    let ghost start = out@;
    let mut i: usize = 0;
    while i < data.len()
        invariant
            i <= data@.len(),
            out@ == start + le32_all(data@.take(i as int)),
        decreases data@.len() - i,
    {
        assert(data@.take(i + 1).drop_last() =~= data@.take(i as int));
        put_u32(&mut out, data[i]);
        assert(out@ =~= start + le32_all(data@.take(i + 1)));
        i = i + 1;
    }
    assert(data@.take(data@.len() as int) =~= data@);
    Ok(out)
}

} // verus!
