//! Computing the fingerprint of one image file.
use crate::similarity::Fingerprint;
use vstd::prelude::*;

verus! {

/// Why an image has no fingerprint.
#[derive(Clone, Debug)]
pub enum FailureCause {
    /// The file could not be read. Holds the reader's message.
    Unreadable(String),
    /// The file's contents could not be decoded. Holds the codec's message.
    Undecodable(String),
    /// The decoded raster has no pixels.
    EmptyRaster,
    /// The raster holds fewer bytes than its dimensions call for.
    TruncatedRaster,
    /// The raster is wider than this machine can resample.
    Oversized,
}

/// The failure to fingerprint one image: which file, and why.
#[derive(Clone, Debug)]
pub struct FingerprintError {
    pub path: String,
    pub cause: FailureCause,
}

/// The outcome of fingerprinting one image.
pub type FingerprintResult = Result<Fingerprint, FingerprintError>;

/// A decoded image: `height` rows of `width` pixels, three bytes (red, green,
/// blue) per pixel, row by row.
#[derive(Clone, Debug)]
pub struct RgbRaster {
    pub width: u32,
    pub height: u32,
    pub pixels: Vec<u8>,
}

/// Whether a raster of the given width and height that holds `len` bytes can
/// be fingerprinted: it has pixels, all of them are present, and a row of
/// eight times its width can be addressed.
pub open spec fn hashable_parts(width: u32, height: u32, len: nat) -> bool {
    &&& width > 0
    &&& height > 0
    &&& 3 * width * height <= len
    &&& 8 * width <= usize::MAX
}

/// The reason for which a raster of the given width and height that holds
/// `len` bytes cannot be fingerprinted.
pub open spec fn defect_parts(width: u32, height: u32, len: nat) -> FailureCause
    recommends
        !hashable_parts(width, height, len),
{
    if width == 0 || height == 0 {
        FailureCause::EmptyRaster
    } else if 3 * width * height > len {
        FailureCause::TruncatedRaster
    } else {
        FailureCause::Oversized
    }
}

impl RgbRaster {
    /// Whether the raster can be fingerprinted.
    pub open spec fn hashable(self) -> bool {
        hashable_parts(self.width, self.height, self.pixels@.len())
    }

    /// The reason for which the raster cannot be fingerprinted.
    pub open spec fn defect(self) -> FailureCause
        recommends
            !self.hashable(),
    {
        defect_parts(self.width, self.height, self.pixels@.len())
    }
}

/// What the `image` crate makes of a file's bytes when it picks the codec by
/// the path's extension, decodes, and converts to 8-bit RGB: the width, the
/// height and the bytes of the raster, or the text of the codec's error.
pub uninterp spec fn decoded(path: Seq<char>, contents: Seq<u8>) -> Result<
    (u32, u32, Seq<u8>),
    Seq<char>,
>;

/// The eight bytes that `img_hash` computes for a raster with the gradient
/// algorithm and a hash size of 8 by 8.
pub uninterp spec fn gradient_bits(width: u32, height: u32, pixels: Seq<u8>) -> Seq<u8>;

/// A decoding's outcome as plain values.
pub open spec fn decode_view(result: Result<RgbRaster, String>) -> Result<
    (u32, u32, Seq<u8>),
    Seq<char>,
> {
    match result {
        Ok(raster) => Ok((raster.width, raster.height, raster.pixels@)),
        Err(message) => Err(message@),
    }
}

/// The fingerprint that belongs to a file: that of its decoded raster, where
/// the file can be decoded and the raster can be fingerprinted; else none.
pub open spec fn phash_bits(path: Seq<char>, contents: Seq<u8>) -> Option<Seq<u8>> {
    match decoded(path, contents) {
        Ok(parts) => if hashable_parts(parts.0, parts.1, parts.2.len()) {
            Some(gradient_bits(parts.0, parts.1, parts.2))
        } else {
            None
        },
        Err(_) => None,
    }
}

/// Whether `result` is what fingerprinting a file gives: the fingerprint that
/// belongs to the file; or, where none does, the failure under the file's
/// path, whose cause is the codec's message where the file cannot be decoded
/// and the defect of the decoded raster otherwise.
pub open spec fn phash_outcome(path: Seq<char>, contents: Seq<u8>, result: FingerprintResult) -> bool {
    match result {
        Ok(fingerprint) => phash_bits(path, contents) == Some(fingerprint@),
        Err(error) => {
            &&& error.path@ == path
            &&& match decoded(path, contents) {
                Ok(parts) => {
                    &&& !hashable_parts(parts.0, parts.1, parts.2.len())
                    &&& error.cause == defect_parts(parts.0, parts.1, parts.2.len())
                },
                Err(message) => error.cause matches FailureCause::Undecodable(text) && text@
                    == message,
            }
        },
    }
}

/// Decodes a file's bytes with the `image` crate: `ImageFormat::from_path`
/// picks the codec by the path's extension, `load_from_memory_with_format`
/// decodes, `DynamicImage::to_rgb8` converts, and `dimensions` and `into_raw`
/// take the buffer apart; an error is given as the text of its `Display`. The
/// contract claims that the outcome depends on the path and the bytes alone,
/// and nothing of what it is.
#[verifier::external_body]
fn decode_rgb8(path: &str, contents: &[u8]) -> (result: Result<RgbRaster, String>)
    ensures
        decode_view(result) == decoded(path@, contents@),
{
    let format = match image::ImageFormat::from_path(path) {
        Ok(format) => format,
        Err(error) => return Err(error.to_string()),
    };
    let image = match image::load_from_memory_with_format(contents, format) {
        Ok(image) => image,
        Err(error) => return Err(error.to_string()),
    };
    let buffer = image.to_rgb8();
    let (width, height) = buffer.dimensions();
    Ok(RgbRaster { width, height, pixels: buffer.into_raw() })
}

/// Hashes a raster with `img_hash`: `ImageBuffer::from_raw` makes the image,
/// `HasherConfig` a hasher for the gradient algorithm with a hash size of 8 by 8,
/// and `Hasher::hash_image` the hash, whose bytes `ImageHash::as_bytes` gives.
/// The contract claims that an 8 by 8 hash has eight bytes, as the
/// documentation of `HasherConfig` says, and that the hash depends on the
/// raster alone: the hasher reads nothing else, and the claim rests on its
/// floating-point resampling giving the same values for the same pixels.
#[verifier::external_body]
fn gradient_hash(raster: RgbRaster) -> (hash: Vec<u8>)
    requires
        raster.hashable(),
    ensures
        hash@.len() == 8,
        hash@ == gradient_bits(raster.width, raster.height, raster.pixels@),
{
    let RgbRaster { width, height, pixels } = raster;
    let buffer = img_hash::image::ImageBuffer::<img_hash::image::Rgb<u8>, Vec<u8>>::from_raw(
        width,
        height,
        pixels,
    ).unwrap();
    let hasher = img_hash::HasherConfig::new().hash_alg(img_hash::HashAlg::Gradient).hash_size(
        8,
        8,
    ).to_hasher();
    hasher.hash_image(&buffer).as_bytes().to_vec()
}

/// Builds the failure for `path`.
fn failure(path: &str, cause: FailureCause) -> (error: FingerprintError)
    ensures
        error.path@ == path@,
        error.cause == cause,
{
    FingerprintError { path: path.to_owned(), cause }
}

/// Fingerprints a decoded image.
///
/// Succeeds exactly on a raster that is `hashable`, with the gradient hash of
/// the raster; otherwise the failure names `image_path` and the raster's
/// defect.
pub fn fingerprint_raster(image_path: &str, raster: RgbRaster) -> (result: FingerprintResult)
    ensures
        result is Ok <==> raster.hashable(),
        result matches Ok(fingerprint) ==> fingerprint@ == gradient_bits(
            raster.width,
            raster.height,
            raster.pixels@,
        ),
        result matches Err(error) ==> error.path@ == image_path@ && error.cause
            == raster.defect(),
{
    if raster.width == 0 || raster.height == 0 {
        return Err(failure(image_path, FailureCause::EmptyRaster));
    }
    let width = raster.width as u128;
    let height = raster.height as u128;
    assert(3 * width * height <= 3 * 0xffff_ffff * 0xffff_ffff) by (nonlinear_arith)
        requires
            width <= 0xffff_ffff,
            height <= 0xffff_ffff,
    ;
    let needed: u128 = 3 * width * height;
    if needed > raster.pixels.len() as u128 {
        return Err(failure(image_path, FailureCause::TruncatedRaster));
    }
    if raster.width as u128 > (usize::MAX / 8) as u128 {
        return Err(failure(image_path, FailureCause::Oversized));
    }
    let hash = gradient_hash(raster);
    let bytes: [u8; 8] = [
        hash[0],
        hash[1],
        hash[2],
        hash[3],
        hash[4],
        hash[5],
        hash[6],
        hash[7],
    ];
    let fingerprint = Fingerprint::from_bytes(bytes);
    assert(fingerprint@ =~= hash@);
    Ok(fingerprint)
}

/// Fingerprints the image stored under `image_path`, whose bytes are `contents`.
///
/// The codec is chosen by the path's extension. The contents are decoded to
/// 8-bit RGB and hashed by gradient over an 8 by 8 grid. The call succeeds
/// exactly where the contents can be decoded and the decoded raster can be
/// fingerprinted, and the fingerprint is then the gradient hash of that raster:
/// files that decode to the same raster have the same fingerprint. A failure
/// names `image_path`; its cause is the codec's message where the contents
/// cannot be decoded, and the defect of the decoded raster otherwise.
pub fn calculate_phash(image_path: &str, contents: &[u8]) -> (result: FingerprintResult)
    ensures
        phash_outcome(image_path@, contents@, result),
        result is Ok <==> phash_bits(image_path@, contents@) is Some,
        result matches Ok(fingerprint) ==> (decoded(image_path@, contents@) matches Ok(parts)
            && fingerprint@ == gradient_bits(parts.0, parts.1, parts.2)),
        result matches Err(error) ==> error.path@ == image_path@ && !(error.cause is Unreadable),
{
    match decode_rgb8(image_path, contents) {
        Ok(raster) => fingerprint_raster(image_path, raster),
        Err(message) => Err(failure(image_path, FailureCause::Undecodable(message))),
    }
}

} // verus!
