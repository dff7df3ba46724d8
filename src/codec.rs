//! Encoding of one image: decode to RGBA8, compress, write as base64; and
//! the way back from a payload to the pixels.
use vstd::prelude::*;

verus! {

/// The RGBA8 pixels (row-major, four bytes per pixel, top row first) that the
/// image crate decodes from a file's bytes, or `None` where the bytes are not
/// an image in a format it recognises.
pub uninterp spec fn rgba8_of(b: Seq<u8>) -> Option<Seq<u8>>;

/// The zlib stream that flate2 writes for `d` at its best compression level.
pub uninterp spec fn zlib_best_of(d: Seq<u8>) -> Seq<u8>;

/// Standard base64 (standard alphabet, with padding) of `b`.
pub uninterp spec fn base64_of(b: Seq<u8>) -> Seq<char>;

/// Length of the standard base64 text for `n` bytes.
pub open spec fn base64_len(n: nat) -> nat {
    4 * ((n + 2) / 3)
}

/// The payload recorded for a pixel buffer: its zlib stream at the best
/// level, in base64.
pub open spec fn payload_of(pixels: Seq<u8>) -> Seq<char> {
    base64_of(zlib_best_of(pixels))
}

#[verifier::external_type_specification]
#[verifier::external_body]
pub struct ExImageError(image::ImageError);

#[verifier::external_type_specification]
#[verifier::external_body]
pub struct ExIoError(std::io::Error);

#[verifier::external_type_specification]
#[verifier::external_body]
pub struct ExDecodeError(base64::DecodeError);

/// Relies on image::guess_format (built-in signatures only) and
/// image::load_from_memory_with_format with the format found, then
/// DynamicImage::to_rgba8 and ImageBuffer::into_raw. That path names a
/// built-in format and never consults the crate's registered hooks, so the
/// result depends on the bytes alone.
#[verifier::external_body]
fn load_rgba8(b: &[u8]) -> (r: Result<Vec<u8>, image::ImageError>)
    ensures
        r is Ok <==> rgba8_of(b@) is Some,
        r matches Ok(v) ==> rgba8_of(b@) == Some(v@),
{
    image::guess_format(b)
        .and_then(|f| image::load_from_memory_with_format(b, f))
        .map(|img| img.to_rgba8().into_raw())
}

/// Relies on flate2::write::ZlibEncoder at Compression::best(): the whole
/// buffer is written as one stream, which `finish` completes. Writing into a
/// `Vec` with the miniz_oxide backend does not fail (it fails only on a
/// dictionary request or bad parameters, neither of which arises here).
#[verifier::external_body]
fn zlib_compress(d: &[u8]) -> (r: Result<Vec<u8>, std::io::Error>)
    ensures
        r is Ok,
        r matches Ok(v) ==> v@ == zlib_best_of(d@),
{
    let mut enc = flate2::write::ZlibEncoder::new(Vec::new(), flate2::Compression::best());
    std::io::Write::write_all(&mut enc, d)?;
    enc.finish()
}

/// Relies on flate2::read::ZlibDecoder: a stream that flate2 wrote inflates
/// back to the bytes it was written from.
#[verifier::external_body]
fn zlib_inflate(z: &[u8]) -> (r: Result<Vec<u8>, std::io::Error>)
    ensures
        r is Err ==> forall|d: Seq<u8>| #[trigger] zlib_best_of(d) != z@,
        r matches Ok(v) ==> forall|d: Seq<u8>| #[trigger] zlib_best_of(d) == z@ ==> v@ == d,
{
    let mut out = Vec::new();
    std::io::Read::read_to_end(&mut flate2::read::ZlibDecoder::new(z), &mut out)?;
    Ok(out)
}

/// Relies on base64's STANDARD engine, `Engine::encode`: four characters for
/// each started group of three bytes. It panics where that length overflows.
#[verifier::external_body]
fn base64_encode(b: &[u8]) -> (r: String)
    requires
        base64_len(b@.len()) <= usize::MAX,
    ensures
        r@ == base64_of(b@),
        r@.len() == base64_len(b@.len()),
{
    base64::Engine::encode(&base64::engine::general_purpose::STANDARD, b)
}

/// Relies on base64's STANDARD engine, `Engine::decode`: the text that
/// `encode` wrote decodes back to the bytes it was written from.
#[verifier::external_body]
fn base64_decode(s: &str) -> (r: Result<Vec<u8>, base64::DecodeError>)
    ensures
        r is Err ==> forall|b: Seq<u8>| #[trigger] base64_of(b) != s@,
        r matches Ok(v) ==> forall|b: Seq<u8>| #[trigger] base64_of(b) == s@ ==> v@ == b,
{
    base64::Engine::decode(&base64::engine::general_purpose::STANDARD, s.as_bytes())
}

/// Why a pixel buffer could not be turned into a payload.
#[derive(Clone, Copy, Debug, PartialEq, Eq, Structural)]
pub enum EncodeError {
    /// The compressed stream is too long for its base64 text to be sized.
    TooLarge,
}

/// The pixels of an image file whose compressed stream is too long to be
/// written in base64 (its base64 length would not fit in a `usize`).
pub open spec fn too_large(bytes: Seq<u8>) -> bool {
    match rgba8_of(bytes) {
        Some(px) => base64_len(zlib_best_of(px).len()) > usize::MAX,
        None => false,
    }
}

/// Decodes the bytes of an image file to RGBA8 pixels; `None` where they are
/// not an image.
pub fn decode_image(bytes: &[u8]) -> (r: Option<Vec<u8>>)
    ensures
        r is Some <==> rgba8_of(bytes@) is Some,
        r matches Some(v) ==> rgba8_of(bytes@) == Some(v@),
{
    match load_rgba8(bytes) {
        Ok(v) => Some(v),
        Err(_) => None,
    }
}

/// Base64 text of an already compressed stream.
pub fn payload_from_compressed(z: &[u8]) -> (r: Result<String, EncodeError>)
    ensures
        r is Ok <==> base64_len(z@.len()) <= usize::MAX,
        r matches Ok(s) ==> s@ == base64_of(z@),
        r is Err ==> r == Err::<String, EncodeError>(EncodeError::TooLarge),
{
    let n = z.len();
    let groups: usize = n / 3 + if n % 3 > 0 { 1 } else { 0 };
    assert(groups as nat == (n as nat + 2) / 3);
    if groups > usize::MAX / 4 {
        Err(EncodeError::TooLarge)
    } else {
        Ok(base64_encode(z))
    }
}

/// Compresses a pixel buffer with zlib at the best level and writes the
/// stream in standard base64.
pub fn encode_pixels(pixels: &[u8]) -> (r: Result<String, EncodeError>)
    ensures
        r is Ok <==> base64_len(zlib_best_of(pixels@).len()) <= usize::MAX,
        r matches Ok(s) ==> s@ == payload_of(pixels@),
        r is Err ==> r == Err::<String, EncodeError>(EncodeError::TooLarge),
{
    match zlib_compress(pixels) {
        Ok(z) => payload_from_compressed(z.as_slice()),
        // not reached: compressing into a Vec does not fail
        Err(_) => Err(EncodeError::TooLarge),
    }
}

/// Takes a payload back to the pixel buffer it was made from: base64, then
/// zlib. `None` where the text is not base64 or the bytes not a zlib stream.
pub fn decode_payload(s: &str) -> (r: Option<Vec<u8>>)
    ensures
        forall|p: Seq<u8>| #[trigger] payload_of(p) == s@ ==> (r matches Some(v) && v@ == p),
{
    match base64_decode(s) {
        Ok(z) => match zlib_inflate(z.as_slice()) {
            Ok(v) => Some(v),
            Err(_) => None,
        },
        Err(_) => None,
    }
}

/// Encoding is a function of the pixels alone: the same buffer encoded twice
/// gives the same payload.
pub proof fn lemma_encoding_deterministic(p: Seq<u8>, q: Seq<u8>)
    requires
        p == q,
    ensures
        payload_of(p) == payload_of(q),
        zlib_best_of(p) == zlib_best_of(q),
{
}

} // verus!
