//! JPEG encoding of finished frames.

use vstd::prelude::*;

use crate::viewfinder::StreamSettings;

verus! {

/// What `JpegEncoder::encode_image` writes for an image of the given size whose pixels have so
/// many samples each (one for gray, four for red, green, blue and alpha), given row by row.
pub uninterp spec fn jpeg_encoded(
    samples: Seq<u8>,
    channels: nat,
    width: u32,
    height: u32,
    quality: u8,
) -> Seq<u8>;

/// Whether `image::load_from_memory_with_format`, asked for a JPEG image, gives an image for data.
pub uninterp spec fn image_decodes(data: Seq<u8>) -> bool;

/// Whether `samples` are what decoding data by `image::load_from_memory_with_format` and resizing
/// it by `image::imageops::resize` with a Lanczos filter may give: the samples of a picture of the
/// given size, four per pixel. Machines may differ in the samples that they give for the same data.
pub uninterp spec fn resizes_to(data: Seq<u8>, width: u32, height: u32, samples: Seq<u8>) -> bool;

/// The most bytes that a decoded image may take: 512 MiB.
pub const DECODE_LIMIT: u64 = 0x2000_0000;

/// Whether data looks like a JPEG image of the given size with so many color components: it begins
/// with the start marker, ends with the end marker, and its frame header, behind the JFIF header,
/// gives the size and the components.
pub open spec fn is_jpeg(data: Seq<u8>, components: u8, width: u32, height: u32) -> bool {
    &&& data.len() > 31
    &&& data[0] == 0xff && data[1] == 0xd8
    &&& data[20] == 0xff && data[21] == 0xc0
    &&& data[25] * 256 + data[26] == height
    &&& data[27] * 256 + data[28] == width
    &&& data[29] == components
    &&& data[data.len() - 2] == 0xff && data[data.len() - 1] == 0xd9
}

/// Calls `JpegEncoder::new_with_quality` and `encode_image` on a gray image made by
/// `GrayImage::from_raw`. It is trusted to be a function of the pixels, the size and the quality;
/// to write a JPEG image of that size with one component; and to write what
/// `image::load_from_memory_with_format` decodes, where the decoded image is within the limit of
/// that function. It fails on an image without pixels or with a side of more than 65535.
#[verifier::external_body]
fn encode_gray(pixels: Vec<u8>, width: u32, height: u32, quality: u8) -> (r: Vec<u8>)
    requires
        pixels@.len() == width * height,
        1 <= width <= 65535,
        1 <= height <= 65535,
    ensures
        r@ == jpeg_encoded(pixels@, 1, width, height, quality),
        is_jpeg(r@, 1, width, height),
        width * height <= DECODE_LIMIT ==> image_decodes(r@),
{
    let img = image::GrayImage::from_raw(width, height, pixels).unwrap();
    let mut buf = std::io::Cursor::new(Vec::new());
    image::codecs::jpeg::JpegEncoder::new_with_quality(&mut buf, quality)
        .encode_image(&img)
        .unwrap();
    buf.into_inner()
}

/// Calls `JpegEncoder::new_with_quality` and `encode_image` on an image made by
/// `RgbaImage::from_raw`. It is trusted as the encoding of gray images is; the image has three
/// components, and decoded it takes three bytes per pixel.
#[verifier::external_body]
fn encode_rgba(samples: Vec<u8>, width: u32, height: u32, quality: u8) -> (r: Vec<u8>)
    requires
        samples@.len() == 4 * (width * height),
        1 <= width <= 65535,
        1 <= height <= 65535,
    ensures
        r@ == jpeg_encoded(samples@, 4, width, height, quality),
        is_jpeg(r@, 3, width, height),
        3 * (width * height) <= DECODE_LIMIT ==> image_decodes(r@),
{
    let img = image::RgbaImage::from_raw(width, height, samples).unwrap();
    let mut buf = std::io::Cursor::new(Vec::new());
    image::codecs::jpeg::JpegEncoder::new_with_quality(&mut buf, quality)
        .encode_image(&img)
        .unwrap();
    buf.into_inner()
}

/// Calls `image::load_from_memory_with_format`, asking for a JPEG image, and
/// `image::imageops::resize` with a Lanczos filter. It is trusted to give the samples of an image of
/// the asked size, four per pixel, that belong to the data and that size. Their values are left
/// unsaid: the filter computes in floating point, whose sine differs between machines. Data that
/// cannot be decoded is left out.
#[verifier::external_body]
fn load_resized(jpeg: &[u8], width: u32, height: u32) -> (samples: Vec<u8>)
    requires
        image_decodes(jpeg@),
        1 <= width <= 65535,
        1 <= height <= 65535,
    ensures
        samples@.len() == 4 * (width * height),
        resizes_to(jpeg@, width, height, samples@),
{
    let img = image::load_from_memory_with_format(jpeg, image::ImageFormat::Jpeg).unwrap();
    let filter = image::imageops::FilterType::Lanczos3;
    image::imageops::resize(&img, width, height, filter).into_raw()
}

/// Encodes a grayscale frame. Bytes behind the last pixel are left out.
pub fn encode_jpeg(pixels: &[u8], width: u32, height: u32, quality: u8) -> (r: Vec<u8>)
    requires
        1 <= width <= 65535,
        1 <= height <= 65535,
        width * height <= pixels@.len(),
    ensures
        r@ == jpeg_encoded(pixels@.take(width * height), 1, width, height, quality),
        is_jpeg(r@, 1, width, height),
        width * height <= DECODE_LIMIT ==> image_decodes(r@),
{
    assert(0 <= width * height <= 65535 * 65535) by (nonlinear_arith)
        requires
            1 <= width <= 65535,
            1 <= height <= 65535,
    ;
    assert(pixels@.len() == pixels.len());
    let n: usize = width as usize * height as usize;
    let frame = vstd::slice::slice_to_vec(vstd::slice::slice_subrange(pixels, 0, n));
    assert(pixels@.subrange(0, n as int) =~= pixels@.take(n as int));
    encode_gray(frame, width, height, quality)
}

/// Whether data is the encoding, with the given quality, of another image resized to the given
/// size.
pub open spec fn is_scaled(
    data: Seq<u8>,
    source: Seq<u8>,
    width: u32,
    height: u32,
    quality: u8,
) -> bool {
    exists|samples: Seq<u8>|
        samples.len() == 4 * (width * height) && #[trigger] resizes_to(
            source,
            width,
            height,
            samples,
        ) && data == jpeg_encoded(samples, 4, width, height, quality)
}

/// Encodes a scaled image, given as the samples that scaling gave.
pub fn encode_scaled(samples: Vec<u8>, out_width: u32, out_height: u32, quality: u8) -> (r: Vec<u8>)
    requires
        1 <= out_width <= 65535,
        1 <= out_height <= 65535,
        samples@.len() == 4 * (out_width * out_height),
    ensures
        r@ == jpeg_encoded(samples@, 4, out_width, out_height, quality),
        is_jpeg(r@, 3, out_width, out_height),
        3 * (out_width * out_height) <= DECODE_LIMIT ==> image_decodes(r@),
{
    encode_rgba(samples, out_width, out_height, quality)
}

/// Decodes a JPEG image, scales it and encodes it again, whatever the proportions.
pub fn scale_jpeg(jpeg: &[u8], out_width: u32, out_height: u32, quality: u8) -> (r: Vec<u8>)
    requires
        image_decodes(jpeg@),
        1 <= out_width <= 65535,
        1 <= out_height <= 65535,
    ensures
        is_scaled(r@, jpeg@, out_width, out_height, quality),
        is_jpeg(r@, 3, out_width, out_height),
        3 * (out_width * out_height) <= DECODE_LIMIT ==> image_decodes(r@),
{
    let samples = load_resized(jpeg, out_width, out_height);
    encode_scaled(samples, out_width, out_height, quality)
}

/// Whether frames are scaled for publication.
pub open spec fn needs_scaling(s: StreamSettings) -> bool {
    s.out_width != s.src_width || s.out_height != s.src_height
}

/// Encodes a finished frame for publication: at full size, and scaled afterwards where the output
/// size differs from the source size.
pub fn encode_frame(pixels: &[u8], s: &StreamSettings) -> (r: Vec<u8>)
    requires
        1 <= s.src_width <= 65535,
        1 <= s.src_height <= 65535,
        1 <= s.out_width <= 65535,
        1 <= s.out_height <= 65535,
        s.src_width * s.src_height <= pixels@.len(),
        needs_scaling(*s) ==> s.src_width * s.src_height <= DECODE_LIMIT,
    ensures
        ({
            let full = jpeg_encoded(
                pixels@.take(s.src_width * s.src_height),
                1,
                s.src_width,
                s.src_height,
                s.quality,
            );
            if needs_scaling(*s) {
                is_scaled(r@, full, s.out_width, s.out_height, s.quality)
            } else {
                r@ == full
            }
        }),
        is_jpeg(
            r@,
            if needs_scaling(*s) {
                3
            } else {
                1
            },
            s.out_width,
            s.out_height,
        ),
        (if needs_scaling(*s) {
            3 * (s.out_width * s.out_height)
        } else {
            s.src_width * s.src_height
        }) <= DECODE_LIMIT ==> image_decodes(r@),
{
    let full = encode_jpeg(pixels, s.src_width, s.src_height, s.quality);
    if s.out_width != s.src_width || s.out_height != s.src_height {
        scale_jpeg(full.as_slice(), s.out_width, s.out_height, s.quality)
    } else {
        full
    }
}

/// Frames are published as they are exactly where the output size is the source size, in width and in
/// height.
pub proof fn only_other_sizes_are_scaled(s: StreamSettings)
    ensures
        !needs_scaling(s) <==> s.out_width == s.src_width && s.out_height == s.src_height,
{
}

} // verus!
