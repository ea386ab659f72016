use crate::error::DrawError;
use crate::jpeg::{check_samples, samples_fit};
use sha2::Digest;
use vstd::prelude::*;

verus! {

/// `image::ImageError`, the error of a failed decoding. Nothing is read
/// from it.
#[verifier::external_type_specification]
#[verifier::external_body]
pub struct ExImageError(image::ImageError);

/// `image::DynamicImage`, a decoded image in the pixel format of its
/// source. It is only carried from the decoder to the conversion.
#[verifier::external_type_specification]
#[verifier::external_body]
pub struct ExDynamicImage(image::DynamicImage);

/// The SHA-256 digest of `bytes`.
pub uninterp spec fn sha256_digest(bytes: Seq<u8>) -> Seq<u8>;

/// Calls `Digest::digest` of `sha2::Sha256`. The result is the digest of
/// `buf`.
#[verifier::external_body]
fn sha256(buf: &[u8]) -> (digest: Vec<u8>)
    ensures
        digest@ == sha256_digest(buf@),
{
    sha2::Sha256::digest(buf).to_vec()
}

/// Calls `image::load_from_memory`. Nothing is said of what comes back: the
/// pixels of a JPEG stream may differ from one machine to another. The call
/// is made only for bytes in which the samples of a JPEG frame are stored
/// in the size that the frame header announces; for other streams the
/// decoder is left out, because it would copy between buffers of unequal
/// length.
#[verifier::external_body]
fn load(buf: &[u8]) -> (r: Result<image::DynamicImage, image::ImageError>)
    requires
        samples_fit(buf@),
{
    image::load_from_memory(buf)
}

/// Calls `DynamicImage::into_rgba8` and takes the image apart with
/// `dimensions` and `into_raw`: width, height and the raw pixels.
#[verifier::external_body]
fn rgba8(decoded: image::DynamicImage) -> (r: (u32, u32, Vec<u8>)) {
    let img = decoded.into_rgba8();
    let (width, height) = img.dimensions();
    (width, height, img.into_raw())
}

/// A decoded image.
#[derive(Debug)]
pub struct Image {
    width: u32,
    height: u32,
    pixels: Vec<u8>,
    hash: Vec<u8>,
}

pub struct ImageView {
    pub width: u32,
    pub height: u32,
    pub pixels: Seq<u8>,
    pub hash: Seq<u8>,
}

impl ImageView {
    /// Four bytes for each pixel.
    pub open spec fn wf(self) -> bool {
        self.pixels.len() == 4 * self.width * self.height
    }

    /// The image of the given parts, where the pixels are as many as the
    /// width and the height ask for.
    pub open spec fn assemble(width: u32, height: u32, pixels: Seq<u8>, hash: Seq<u8>) -> Result<
        ImageView,
        DrawError,
    > {
        if pixels.len() == 4 * width * height {
            Ok(ImageView { width, height, pixels, hash })
        } else {
            Err(DrawError::Decode)
        }
    }
}

impl View for Image {
    type V = ImageView;

    closed spec fn view(&self) -> ImageView {
        ImageView {
            width: self.width,
            height: self.height,
            pixels: self.pixels@,
            hash: self.hash@,
        }
    }
}

/// `r`, with the image in it taken by its view.
pub open spec fn result_view(r: Result<Image, DrawError>) -> Result<ImageView, DrawError> {
    match r {
        Ok(img) => Ok(img@),
        Err(e) => Err(e),
    }
}

impl Image {
    #[verifier::type_invariant]
    spec fn inv(self) -> bool {
        self.pixels@.len() == 4 * self.width * self.height
    }

    /// An image of RGBA pixels, row by row, with the hash of its source.
    /// Fails where `pixels` does not hold four bytes for each pixel.
    pub fn from_parts(width: u32, height: u32, pixels: Vec<u8>, hash: Vec<u8>) -> (r: Result<
        Image,
        DrawError,
    >)
        ensures
            result_view(r) == ImageView::assemble(width, height, pixels@, hash@),
    {
        assert(0 <= width * height <= 0xffff_ffff * 0xffff_ffff) by (nonlinear_arith)
            requires
                0 <= width <= 0xffff_ffff,
                0 <= height <= 0xffff_ffff,
        ;
        let area: u128 = (width as u128) * (height as u128);
        let expected: u128 = 4 * area;
        assert(expected == 4 * width * height) by (nonlinear_arith)
            requires
                expected == 4 * (width * height),
        ;
        if pixels.len() as u128 == expected {
            Ok(Image { width, height, pixels, hash })
        } else {
            Err(DrawError::Decode)
        }
    }

    /// What `from_bytes` may return for `bytes`: an image of four bytes for
    /// each pixel that carries the SHA-256 digest of `bytes`, or the decode
    /// error; and only the error for a JPEG stream whose samples are not
    /// stored in the size that its frame header announces.
    pub open spec fn decodes(bytes: Seq<u8>, r: Result<ImageView, DrawError>) -> bool {
        match r {
            Ok(img) => samples_fit(bytes) && img.wf() && img.hash == sha256_digest(bytes),
            Err(e) => e == DrawError::Decode,
        }
    }

    /// Decodes `buf`, whose raster format is found from its first bytes, and
    /// names the image by the SHA-256 digest of `buf`. Bytes that the
    /// decoder refuses are a decode error, and so is a decoded image that
    /// does not hold four bytes for each pixel.
    pub fn from_bytes(buf: &[u8]) -> (r: Result<Image, DrawError>)
        ensures
            Self::decodes(buf@, result_view(r)),
    {
        if !check_samples(buf) {
            return Err(DrawError::Decode);
        }
        match load(buf) {
            Ok(decoded) => {
                let parts = rgba8(decoded);
                let hash = sha256(buf);
                Image::from_parts(parts.0, parts.1, parts.2, hash)
            },
            Err(_) => Err(DrawError::Decode),
        }
    }

    /// Width and height in pixels.
    pub fn size(&self) -> (s: (u32, u32))
        ensures
            s == (self@.width, self@.height),
    {
        (self.width, self.height)
    }

    /// The RGBA pixels, row by row: four bytes for each pixel.
    pub fn pixels(&self) -> (p: &Vec<u8>)
        ensures
            p@ == self@.pixels,
            self@.wf(),
    {
        proof {
            use_type_invariant(self);
        }
        &self.pixels
    }

    /// The digest of the bytes that the image was decoded from.
    pub fn hash(&self) -> (h: &Vec<u8>)
        ensures
            h@ == self@.hash,
    {
        &self.hash
    }
}

} // verus!
