//! Decoding of IDX image and label files that are already in memory.
//!
//! An image file is a 16-byte header followed by images of 28 by 28 pixels, one
//! byte per pixel, row after row. A label file is an 8-byte header followed by
//! one byte per label. Of either header only its length matters to the
//! decoders; the count that it announces is advisory and can be read with
//! [`declared_count`].
use vstd::prelude::*;
use vstd::slice::{slice_subrange, slice_to_vec};

verus! {

/// Bytes before the first image of an image file.
pub const IMAGE_HEADER_LEN: usize = 16;

/// Bytes before the first label of a label file.
pub const LABEL_HEADER_LEN: usize = 8;

/// Pixels, and so bytes, of one image.
pub const IMAGE_LEN: usize = 784;

/// Why a file could not be decoded.
#[derive(Clone, Copy, Debug, PartialEq, Eq, Structural)]
pub enum ReadError {
    /// The input ends inside the header.
    UnexpectedEof,
}

/// Number of whole images that follow the header of `bytes`.
pub open spec fn image_count(bytes: Seq<u8>) -> int {
    (bytes.len() - IMAGE_HEADER_LEN) / (IMAGE_LEN as int)
}

/// The pixels of image `k` of `bytes`, in file order.
pub open spec fn image(bytes: Seq<u8>, k: int) -> Seq<u8> {
    bytes.subrange(IMAGE_HEADER_LEN + k * IMAGE_LEN, IMAGE_HEADER_LEN + (k + 1) * IMAGE_LEN)
}

/// All whole images of `bytes`; bytes after the last whole image are left out.
pub open spec fn images(bytes: Seq<u8>) -> Seq<Seq<u8>> {
    Seq::new(image_count(bytes) as nat, |k: int| image(bytes, k))
}

/// The labels of `bytes`: every byte after the header.
pub open spec fn labels(bytes: Seq<u8>) -> Seq<u8> {
    bytes.subrange(LABEL_HEADER_LEN as int, bytes.len() as int)
}

/// The unsigned number that four bytes spell, most significant byte first.
pub open spec fn be_u32(b: Seq<u8>) -> int {
    b[0] * 0x100_0000 + b[1] * 0x1_0000 + b[2] * 0x100 + b[3]
}

/// Decodes an image file. Fails exactly when the input is shorter than the
/// header; otherwise yields every whole image that follows it.
pub fn read_images(bytes: &[u8]) -> (r: Result<Vec<Vec<u8>>, ReadError>)
    ensures
        match r {
            Ok(v) => bytes@.len() >= IMAGE_HEADER_LEN && v.deep_view() == images(bytes@),
            Err(e) => bytes@.len() < IMAGE_HEADER_LEN && e == ReadError::UnexpectedEof,
        },
{
    if bytes.len() < IMAGE_HEADER_LEN {
        return Err(ReadError::UnexpectedEof);
    }
    let mut out: Vec<Vec<u8>> = Vec::new();
    let mut at: usize = IMAGE_HEADER_LEN;
    while bytes.len() - at >= IMAGE_LEN
        invariant
            IMAGE_HEADER_LEN <= at <= bytes@.len(),
            at == IMAGE_HEADER_LEN + out@.len() * IMAGE_LEN,
            forall|k: int| 0 <= k < out@.len() ==> (#[trigger] out@[k])@ == image(bytes@, k),
        decreases bytes@.len() - at,
    {
        let pixels = slice_to_vec(slice_subrange(bytes, at, at + IMAGE_LEN));
        out.push(pixels);
        at = at + IMAGE_LEN;
    }
    proof {
        assert forall|k: int| 0 <= k < out@.len() implies #[trigger] out.deep_view()[k] == image(
            bytes@,
            k,
        ) by {
            assert(out@[k].deep_view() =~= out@[k]@);
        }
        assert(out.deep_view() =~= images(bytes@));
    }
    Ok(out)
}

/// Decodes a label file. Fails exactly when the input is shorter than the
/// header; otherwise yields one label for each byte that follows it.
pub fn read_labels(bytes: &[u8]) -> (r: Result<Vec<u8>, ReadError>)
    ensures
        match r {
            Ok(v) => bytes@.len() >= LABEL_HEADER_LEN && v@ == labels(bytes@),
            Err(e) => bytes@.len() < LABEL_HEADER_LEN && e == ReadError::UnexpectedEof,
        },
{
    if bytes.len() < LABEL_HEADER_LEN {
        return Err(ReadError::UnexpectedEof);
    }
    Ok(slice_to_vec(slice_subrange(bytes, LABEL_HEADER_LEN, bytes.len())))
}

/// The number of items that the header of an image or label file announces:
/// bytes 4 to 7, most significant first. `None` when the input has fewer than
/// eight bytes.
pub fn declared_count(bytes: &[u8]) -> (r: Option<u32>)
    ensures
        match r {
            Some(count) => bytes@.len() >= 8 && count == be_u32(bytes@.subrange(4, 8)),
            None => bytes@.len() < 8,
        },
{
    if bytes.len() < 8 {
        return None;
    }
    let b0: u32 = bytes[4] as u32;
    let b1: u32 = bytes[5] as u32;
    let b2: u32 = bytes[6] as u32;
    let b3: u32 = bytes[7] as u32;
    Some(b0 * 0x100_0000 + b1 * 0x1_0000 + b2 * 0x100 + b3)
}

/// Every image has [`IMAGE_LEN`] pixels, and pixel `j` of image `k` is the
/// byte at `16 + 784 k + j`.
pub proof fn lemma_image_pixels(bytes: Seq<u8>, k: int, j: int)
    requires
        0 <= k < image_count(bytes),
        0 <= j < IMAGE_LEN,
    ensures
        images(bytes).len() == image_count(bytes),
        images(bytes)[k].len() == IMAGE_LEN,
        images(bytes)[k][j] == bytes[IMAGE_HEADER_LEN + IMAGE_LEN * k + j],
        IMAGE_HEADER_LEN + IMAGE_LEN * k + j < bytes.len(),
{
}

/// What the header holds does not matter: two files with the same bytes after
/// their headers hold the same images.
pub proof fn lemma_header_not_interpreted(a: Seq<u8>, b: Seq<u8>)
    requires
        a.len() >= IMAGE_HEADER_LEN,
        b.len() >= IMAGE_HEADER_LEN,
        a.skip(IMAGE_HEADER_LEN as int) == b.skip(IMAGE_HEADER_LEN as int),
    ensures
        images(a) == images(b),
{
    assert(a.len() == b.len()) by {
        assert(a.skip(IMAGE_HEADER_LEN as int).len() == a.len() - IMAGE_HEADER_LEN);
        assert(b.skip(IMAGE_HEADER_LEN as int).len() == b.len() - IMAGE_HEADER_LEN);
    }
    assert forall|k: int| 0 <= k < image_count(a) implies image(a, k) == image(b, k) by {
        assert forall|j: int| 0 <= j < IMAGE_LEN implies image(a, k)[j] == image(b, k)[j] by {
            assert(a[IMAGE_HEADER_LEN + k * IMAGE_LEN + j] == a.skip(IMAGE_HEADER_LEN as int)[k
                * IMAGE_LEN + j]);
            assert(b[IMAGE_HEADER_LEN + k * IMAGE_LEN + j] == b.skip(IMAGE_HEADER_LEN as int)[k
                * IMAGE_LEN + j]);
        }
        assert(image(a, k) =~= image(b, k));
    }
    assert(images(a) =~= images(b));
}

/// Bytes that do not make up a whole image are dropped: a file holds the same
/// images as its beginning that ends with its last whole image.
pub proof fn lemma_partial_image_dropped(bytes: Seq<u8>)
    requires
        bytes.len() >= IMAGE_HEADER_LEN,
    ensures
        images(bytes) == images(bytes.take(IMAGE_HEADER_LEN + IMAGE_LEN * image_count(bytes))),
{
    let whole = bytes.take(IMAGE_HEADER_LEN + IMAGE_LEN * image_count(bytes));
    assert(image_count(whole) == image_count(bytes));
    assert forall|k: int| 0 <= k < image_count(bytes) implies image(bytes, k) == image(
        whole,
        k,
    ) by {
        assert(image(bytes, k) =~= image(whole, k));
    }
    assert(images(bytes) =~= images(whole));
}

} // verus!
