//! The two IDX decoders and the mathematical model of the wire format.
//!
//! A label file is laid out as `[magic=2049][count][count bytes]` and an
//! image file as `[magic=2051][count][rows][cols][count blocks of rows*cols
//! bytes]`, all header fields big-endian 32-bit. The spec functions below
//! state, for every byte sequence, exactly what a decode returns — the
//! decoded records or the precise error — and the executable decoders are
//! proved to agree with them.

use vstd::prelude::*;

use crate::error::MnistError;
use crate::image::Image;

verus! {

/// Magic number that opens a label file.
pub const LABEL_MAGIC: u32 = 2049;

/// Magic number that opens an image file.
pub const IMAGE_MAGIC: u32 = 2051;

/// The big-endian 32-bit value held by the four bytes of `s` starting at `i`.
pub open spec fn be_u32(s: Seq<u8>, i: int) -> int {
    s[i] * 0x100_0000 + s[i + 1] * 0x1_0000 + s[i + 2] * 0x100 + s[i + 3]
}

/// Reads the big-endian 32-bit header field at `offset`.
fn read_be_u32(bytes: &Vec<u8>, offset: usize) -> (r: u32)
    requires
        offset + 4 <= bytes@.len(),
    ensures
        r == be_u32(bytes@, offset as int),
{
    let len = bytes.len();
    assert(offset + 3 < len);
    let b0 = bytes[offset] as u32;
    let b1 = bytes[offset + 1] as u32;
    let b2 = bytes[offset + 2] as u32;
    let b3 = bytes[offset + 3] as u32;
    b0 * 0x100_0000 + b1 * 0x1_0000 + b2 * 0x100 + b3
}

/// What decoding a label file returns, for every byte sequence: the labels
/// in file order, or the error the decoder must raise.
pub open spec fn spec_decode_labels(s: Seq<u8>) -> Result<Seq<u8>, MnistError> {
    if s.len() < 4 {
        Err(MnistError::Io)
    } else if be_u32(s, 0) != LABEL_MAGIC {
        Err(MnistError::InvalidMagicNumber {
            expected: LABEL_MAGIC,
            found: be_u32(s, 0) as u32,
        })
    } else if s.len() < 8 + be_u32(s, 4) {
        Err(MnistError::Io)
    } else {
        Ok(s.subrange(8, 8 + be_u32(s, 4)))
    }
}

/// Decodes a label file: validates the magic number, reads the declared
/// count, and returns exactly that many labels in file order.
pub fn decode_labels(bytes: &Vec<u8>) -> (result: Result<Vec<u8>, MnistError>)
    ensures
        result is Ok <==> spec_decode_labels(bytes@) is Ok,
        result matches Ok(labels) ==> {
            &&& labels@ == spec_decode_labels(bytes@)->Ok_0
            &&& labels@.len() == be_u32(bytes@, 4)
            &&& forall|i: int| 0 <= i < labels@.len() ==> labels@[i] == bytes@[8 + i]
        },
        result matches Err(e) ==> e == spec_decode_labels(bytes@)->Err_0,
        bytes@.len() >= 4 && be_u32(bytes@, 0) != LABEL_MAGIC ==> (result matches Err(e) && e
            == (MnistError::InvalidMagicNumber {
            expected: LABEL_MAGIC,
            found: be_u32(bytes@, 0) as u32,
        })),
{
    if bytes.len() < 4 {
        return Err(MnistError::Io);
    }
    let magic = read_be_u32(bytes, 0);
    if magic != LABEL_MAGIC {
        return Err(MnistError::InvalidMagicNumber { expected: LABEL_MAGIC, found: magic });
    }
    if bytes.len() < 8 {
        return Err(MnistError::Io);
    }
    let count = read_be_u32(bytes, 4);
    if ((bytes.len() - 8) as u64) < (count as u64) {
        return Err(MnistError::Io);
    }
    let n = count as usize;
    let mut labels: Vec<u8> = Vec::new();
    let mut i: usize = 0;
    while i < n
        invariant
            i <= n,
            n + 8 <= bytes@.len() <= usize::MAX,
            labels@ =~= bytes@.subrange(8, 8 + i as int),
        decreases n - i,
    {
        labels.push(bytes[8 + i]);
        i = i + 1;
    }
    assert(labels@ =~= spec_decode_labels(bytes@)->Ok_0);
    Ok(labels)
}

/// What decoding an image file returns, for every byte sequence and every
/// configured `(width, height)`: the row-major pixel block of each image in
/// file order, or the error the decoder must raise.
pub open spec fn spec_decode_images(s: Seq<u8>, width: u32, height: u32) -> Result<
    Seq<Seq<u8>>,
    MnistError,
> {
    if s.len() < 4 {
        Err(MnistError::Io)
    } else if be_u32(s, 0) != IMAGE_MAGIC {
        Err(MnistError::InvalidMagicNumber {
            expected: IMAGE_MAGIC,
            found: be_u32(s, 0) as u32,
        })
    } else if s.len() < 16 {
        Err(MnistError::Io)
    } else if be_u32(s, 8) != height || be_u32(s, 12) != width {
        Err(MnistError::InvalidImageDimensions {
            expected: (width, height),
            found: (be_u32(s, 12) as u32, be_u32(s, 8) as u32),
        })
    } else if s.len() < 16 + be_u32(s, 4) * (be_u32(s, 8) * be_u32(s, 12)) {
        Err(MnistError::Io)
    } else {
        Ok(
            Seq::new(
                be_u32(s, 4) as nat,
                |i: int|
                    s.subrange(
                        16 + i * (be_u32(s, 8) * be_u32(s, 12)),
                        16 + (i + 1) * (be_u32(s, 8) * be_u32(s, 12)),
                    ),
            ),
        )
    }
}

/// Decodes an image file: validates the magic number, reads the declared
/// item, row and column counts, validates the resolution against the
/// configured one, and returns exactly the declared number of images, each
/// an unbroken row-major block of the body, in file order.
pub fn decode_images(bytes: &Vec<u8>, expected_width: u32, expected_height: u32) -> (result:
    Result<Vec<Image>, MnistError>)
    ensures
        result is Ok <==> spec_decode_images(bytes@, expected_width, expected_height) is Ok,
        result matches Ok(images) ==> {
            let blocks = spec_decode_images(bytes@, expected_width, expected_height)->Ok_0;
            &&& images@.len() == blocks.len()
            &&& images@.len() == be_u32(bytes@, 4)
            &&& forall|i: int|
                0 <= i < images@.len() ==> {
                    &&& images@[i]@ == blocks[i]
                    &&& images@[i]@.len() == expected_width * expected_height
                    &&& images@[i].width() == expected_width as usize
                    &&& images@[i].height() == expected_height as usize
                    &&& images@[i].wf()
                }
        },
        result matches Err(e) ==> e == spec_decode_images(
            bytes@,
            expected_width,
            expected_height,
        )->Err_0,
        bytes@.len() >= 16 && be_u32(bytes@, 0) == IMAGE_MAGIC && (be_u32(bytes@, 8)
            != expected_height || be_u32(bytes@, 12) != expected_width) ==> (result matches Err(e)
            && e == (MnistError::InvalidImageDimensions {
            expected: (expected_width, expected_height),
            found: (be_u32(bytes@, 12) as u32, be_u32(bytes@, 8) as u32),
        })),
        bytes@.len() >= 16 && be_u32(bytes@, 0) == IMAGE_MAGIC && be_u32(bytes@, 8)
            == expected_height && be_u32(bytes@, 12) == expected_width && bytes@.len() < 16 + be_u32(
            bytes@,
            4,
        ) * (be_u32(bytes@, 8) * be_u32(bytes@, 12)) ==> (result matches Err(e) && e
            == MnistError::Io),
{
    let len = bytes.len();
    if len < 4 {
        return Err(MnistError::Io);
    }
    let magic = read_be_u32(bytes, 0);
    if magic != IMAGE_MAGIC {
        return Err(MnistError::InvalidMagicNumber { expected: IMAGE_MAGIC, found: magic });
    }
    if len < 16 {
        return Err(MnistError::Io);
    }
    let count = read_be_u32(bytes, 4);
    let rows = read_be_u32(bytes, 8);
    let cols = read_be_u32(bytes, 12);
    if rows != expected_height || cols != expected_width {
        return Err(MnistError::InvalidImageDimensions {
            expected: (expected_width, expected_height),
            found: (cols, rows),
        });
    }
    proof {
        let m: int = 0xffff_ffff;
        assert((rows as int) * (cols as int) <= m * m) by (nonlinear_arith)
            requires
                0 <= rows as int <= m,
                0 <= cols as int <= m,
        ;
        assert((count as int) * ((rows as int) * (cols as int)) <= m * (m * m))
            by (nonlinear_arith)
            requires
                0 <= count as int <= m,
                0 <= (rows as int) * (cols as int) <= m * m,
        ;
    }
    let block_wide: u128 = (rows as u128) * (cols as u128);
    let need: u128 = (count as u128) * block_wide;
    if (((len - 16) as u128)) < need {
        return Err(MnistError::Io);
    }
    let mut images: Vec<Image> = Vec::new();
    if count == 0 {
        return Ok(images);
    }
    proof {
        assert(block_wide <= need) by (nonlinear_arith)
            requires
                need == count * block_wide,
                count >= 1,
                block_wide >= 0,
        ;
        assert(block_wide <= usize::MAX);
    }
    let block: usize = block_wide as usize;
    let mut i: u32 = 0;
    let mut offset: usize = 16;
    while i < count
        invariant
            i <= count,
            block == rows * cols,
            offset == 16 + i * block,
            16 + count * block <= len == bytes@.len() <= usize::MAX,
            images@.len() == i,
            forall|q: int|
                0 <= q < i ==> {
                    &&& images@[q]@ == bytes@.subrange(16 + q * block, 16 + (q + 1) * block)
                    &&& images@[q].width() == cols as usize
                    &&& images@[q].height() == rows as usize
                    &&& images@[q].wf()
                },
        decreases count - i,
    {
        proof {
            assert(offset + block == 16 + (i + 1) * block) by (nonlinear_arith)
                requires
                    offset == 16 + i * block,
            ;
            assert(16 + (i + 1) * block <= 16 + count * block) by (nonlinear_arith)
                requires
                    i + 1 <= count,
                    block >= 0,
            ;
        }
        let mut pixels: Vec<u8> = Vec::new();
        let mut k: usize = 0;
        while k < block
            invariant
                k <= block,
                offset + block <= bytes@.len() <= usize::MAX,
                pixels@ =~= bytes@.subrange(offset as int, offset + k),
            decreases block - k,
        {
            pixels.push(bytes[offset + k]);
            k = k + 1;
        }
        proof {
            assert((cols as usize) * (rows as usize) == rows * cols) by (nonlinear_arith);
        }
        let img = match Image::from_bytes(cols as usize, rows as usize, pixels) {
            Some(img) => img,
            None => vstd::pervasive::unreached(),
        };
        images.push(img);
        offset = offset + block;
        i = i + 1;
    }
    proof {
        let blocks = spec_decode_images(bytes@, expected_width, expected_height)->Ok_0;
        assert forall|q: int| 0 <= q < images@.len() implies images@[q]@ == blocks[q]
            && images@[q]@.len() == expected_width * expected_height by {
            assert((rows as int) * (cols as int) == (cols as int) * (rows as int))
                by (nonlinear_arith);
        }
    }
    Ok(images)
}

} // verus!
