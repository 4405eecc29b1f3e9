//! The fingerprint generator: decode image bytes to a pixel grid, resample
//! to a small fixed grid, and derive one bit per row-wise gradient
//! comparison. Decoding and hashing are done by the image codec and the
//! perceptual hasher; their combined result is a function of the input
//! bytes and the grid size alone, which is what makes two independently
//! generated fingerprints comparable bit for bit.

use vstd::prelude::*;
use crate::base64::{base64_of, encode_base64};
use crate::distance::{distance, hamming, LengthMismatchError};

verus! {

/// Why generation failed: the bytes are not a well-formed supported
/// image, or the requested configuration is internally inconsistent.
#[derive(Clone, Copy, PartialEq, Eq, Structural, Debug)]
pub enum GenerateError {
    Decode,
    Configuration,
}

/// Generation parameters: the target bit length and the sampling grid it
/// is derived from. Bit `y * width + x` of the fingerprint compares the
/// luminance of grid cell `(x, y)` with its right neighbour on a
/// `(width + 1) x height` grid.
#[derive(Clone, Copy, PartialEq, Eq, Structural, Debug)]
pub struct HashConfig {
    pub bits: u32,
    pub width: u32,
    pub height: u32,
}

impl HashConfig {
    /// A configuration is consistent when the grid is non-empty, small
    /// enough to hash, and yields exactly the requested number of bits.
    pub open spec fn valid(self) -> bool {
        1 <= self.width <= 256 && 1 <= self.height <= 256 && self.bits == self.width * self.height
    }

    /// Byte length of a fingerprint generated under this configuration.
    pub open spec fn fingerprint_len(self) -> int {
        (self.bits + 7) / 8
    }

    pub fn is_valid(&self) -> (r: bool)
        ensures
            r == self.valid(),
    {
        if self.width < 1 || self.width > 256 || self.height < 1 || self.height > 256 {
            return false;
        }
        proof {
            lemma_grid_bits_bounded(self.width, self.height);
        }
        self.bits == self.width * self.height
    }
}

impl Default for HashConfig {
    /// The common configuration: 64 bits from an 8 x 8 grid.
    fn default() -> (r: Self)
        ensures
            r == (HashConfig { bits: 64, width: 8, height: 8 }),
            r.valid(),
    {
        HashConfig { bits: 64, width: 8, height: 8 }
    }
}

/// A bounded grid yields a bounded bit count, so fingerprints stay short
/// enough to score with a `u32`.
proof fn lemma_grid_bits_bounded(width: u32, height: u32)
    requires
        width <= 256,
        height <= 256,
    ensures
        width * height <= 65536,
{
    assert(width * height <= 65536) by (nonlinear_arith)
        requires
            width <= 256,
            height <= 256,
    ;
}

/// Whether the image codec accepts these bytes as a well-formed image;
/// it depends on the bytes alone.
pub uninterp spec fn decodable(bytes: Seq<u8>) -> bool;

/// The packed gradient-comparison bits of the image the bytes decode to,
/// for a given sampling grid; it depends on the bytes and grid alone.
pub uninterp spec fn gradient_hash(bytes: Seq<u8>, width: u32, height: u32) -> Seq<u8>;

/// Relies on `image::load_from_memory`, which decodes the bytes or fails,
/// depending on the bytes alone; and on `image_hasher`'s `Gradient`
/// hasher (`HasherConfig::hash_size`, `hash_alg`, `to_hasher`,
/// `Hasher::hash_image`), which resamples the decoded image to a
/// `(width + 1) x height` luminance grid with a fixed filter and packs
/// the `width * height` row-gradient comparison bits into
/// `ceil(width * height / 8)` bytes, least significant bit first.
#[verifier::external_body]
fn decode_and_hash(bytes: &[u8], width: u32, height: u32) -> (r: Option<Vec<u8>>)
    requires
        1 <= width <= 256,
        1 <= height <= 256,
    ensures
        (r is Some) <==> decodable(bytes@),
        r is Some ==> r.unwrap()@ == gradient_hash(bytes@, width, height),
        r is Some ==> r.unwrap()@.len() == (width * height + 7) / 8,
{
    let img = match image::load_from_memory(bytes) {
        Ok(img) => img,
        Err(_) => return None,
    };
    let hasher = image_hasher::HasherConfig::new().hash_alg(image_hasher::HashAlg::Gradient)
        .hash_size(width, height)
        .to_hasher();
    Some(hasher.hash_image(&img).as_bytes().to_vec())
}

/// An immutable fixed-length bit vector summarizing an image's visual
/// content, packed into bytes. All fingerprints generated under one
/// configuration have the same length.
#[derive(Clone, PartialEq, Eq, Debug)]
pub struct Fingerprint {
    bytes: Vec<u8>,
}

impl View for Fingerprint {
    type V = Seq<u8>;

    closed spec fn view(&self) -> Seq<u8> {
        self.bytes@
    }
}

impl Fingerprint {
    /// Short enough that a distance over it is counted in a `u32`.
    pub open spec fn wf(self) -> bool {
        8 * self@.len() <= u32::MAX
    }

    /// The packed fingerprint bytes.
    pub fn as_bytes(&self) -> (r: &[u8])
        ensures
            r@ == self@,
    {
        self.bytes.as_slice()
    }

    /// A fingerprint read back from its packed bytes, as a host hands
    /// them in at query time; rejects a buffer too long to score.
    pub fn from_bytes(bytes: Vec<u8>) -> (r: Option<Fingerprint>)
        ensures
            (r is Some) <==> 8 * bytes@.len() <= u32::MAX,
            r is Some ==> r.unwrap()@ == bytes@ && r.unwrap().wf(),
    {
        if bytes.len() <= (u32::MAX / 8) as usize {
            Some(Fingerprint { bytes })
        } else {
            None
        }
    }

    /// The canonical textual form: base64 of the packed bytes, standard
    /// alphabet, no padding.
    pub fn to_base64(&self) -> (r: String)
        ensures
            r@ == base64_of(self@),
    {
        encode_base64(self.bytes.as_slice())
    }

    /// Hamming distance to another fingerprint; fails exactly when the
    /// two have differing byte length.
    pub fn distance(&self, other: &Fingerprint) -> (r: Result<u32, LengthMismatchError>)
        requires
            self.wf(),
        ensures
            r is Ok <==> self@.len() == other@.len(),
            self@.len() == other@.len() ==> r is Ok && r.unwrap() == hamming(self@, other@),
            r is Ok ==> r.unwrap() <= 8 * self@.len(),
            self@.len() != other@.len() ==> r == Err::<u32, LengthMismatchError>(
                LengthMismatchError,
            ),
    {
        distance(self.bytes.as_slice(), other.bytes.as_slice())
    }
}

/// Fingerprint of an image, from its raw bytes and a configuration.
///
/// Succeeds exactly when the configuration is consistent and the bytes
/// decode as an image; the result is a function of the bytes and the
/// grid alone, so byte-identical inputs always yield byte-identical
/// fingerprints, of `ceil(bits / 8)` bytes.
pub fn generate(image_bytes: &[u8], config: &HashConfig) -> (r: Result<Fingerprint, GenerateError>)
    ensures
        r is Ok <==> config.valid() && decodable(image_bytes@),
        !config.valid() ==> r == Err::<Fingerprint, GenerateError>(GenerateError::Configuration),
        config.valid() && !decodable(image_bytes@) ==> r == Err::<Fingerprint, GenerateError>(
            GenerateError::Decode,
        ),
        r is Ok ==> r.unwrap()@ == gradient_hash(image_bytes@, config.width, config.height),
        r is Ok ==> r.unwrap()@.len() == config.fingerprint_len() && r.unwrap().wf(),
{
    if !config.is_valid() {
        return Err(GenerateError::Configuration);
    }
    proof {
        lemma_grid_bits_bounded(config.width, config.height);
    }
    match decode_and_hash(image_bytes, config.width, config.height) {
        Some(bytes) => Ok(Fingerprint { bytes }),
        None => Err(GenerateError::Decode),
    }
}

/// Fingerprint of an image under the common 64-bit configuration, in
/// canonical base64 form; fails exactly when the bytes do not decode.
pub fn phash(image_bytes: &[u8]) -> (r: Result<String, GenerateError>)
    ensures
        r is Ok <==> decodable(image_bytes@),
        r is Ok ==> r.unwrap()@ == base64_of(gradient_hash(image_bytes@, 8, 8)),
        !decodable(image_bytes@) ==> r == Err::<String, GenerateError>(GenerateError::Decode),
{
    let config = HashConfig { bits: 64, width: 8, height: 8 };
    match generate(image_bytes, &config) {
        Ok(fp) => Ok(fp.to_base64()),
        Err(e) => Err(e),
    }
}

} // verus!
