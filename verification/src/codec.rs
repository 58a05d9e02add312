//! The image codec: fits a captured image into the size and dimension
//! limits, encodes it as PNG wrapped in base64, and reverses both on the way
//! back to the clipboard.

use crate::content::{ClipboardContent, ContentView};
use crate::protocol::MAX_MESSAGE_LEN;
use crate::sizing::{fit_budget, fit_within, fitted, footprint, prescaled, shrink, shrunk, Size};
use base64::Engine;
use vstd::prelude::*;
use vstd::slice::slice_to_vec;

verus! {

/// Default ceiling, in bytes, of an encoded image.
pub const DEFAULT_MAX_BYTES: usize = 5242880;

/// Default ceiling, in pixels, of either edge of an encoded image.
pub const DEFAULT_MAX_DIMENSION: u32 = 4096;

/// The largest byte ceiling that can be configured.
pub const MAX_BYTES_CEILING: usize = 1073741824;

/// The most pixels a captured image may have to be taken for encoding.
pub const MAX_SOURCE_PIXELS: u64 = 50000000;

/// The most encoding attempts made on one image.
pub const MAX_ATTEMPTS: u32 = 3;

/// Why the codec gave up on a value.
#[derive(Debug, Clone, Copy, PartialEq, Eq, Structural)]
pub enum CodecError {
    /// The image cannot be brought under the byte ceiling.
    TooLarge,
    /// The payload does not decode to an image of the declared dimensions.
    Corrupt,
    /// The image has no pixels, or the PNG encoder refused it.
    Unencodable,
}

/// Whether a byte ceiling and an edge ceiling make usable limits: the edge
/// ceiling is at least one pixel, a single row of that many pixels still
/// fits the pre-scaling budget, and the byte ceiling is itself bounded.
pub open spec fn valid_limits(max_bytes: int, max_dimension: int) -> bool {
    1 <= max_dimension && 2 * max_dimension <= max_bytes <= MAX_BYTES_CEILING
}

/// The ceilings that an encoded image must keep.
#[derive(Debug, Clone, Copy)]
pub struct CodecLimits {
    max_bytes: usize,
    max_dimension: u32,
}

impl CodecLimits {
    #[verifier::type_invariant]
    spec fn valid(self) -> bool {
        valid_limits(self.max_bytes as int, self.max_dimension as int)
    }

    /// The ceiling, in bytes, of an encoded image.
    pub closed spec fn max_bytes(&self) -> int {
        self.max_bytes as int
    }

    /// The ceiling, in pixels, of either edge.
    pub closed spec fn max_dimension(&self) -> u32 {
        self.max_dimension
    }

    /// The footprint above which an image is scaled down before the first
    /// encoding attempt: twice the byte ceiling.
    pub open spec fn budget(&self) -> int {
        2 * self.max_bytes()
    }

    /// Limits with the given ceilings, if they are usable.
    pub fn new(max_bytes: usize, max_dimension: u32) -> (limits: Option<CodecLimits>)
        ensures
            limits.is_some() == valid_limits(max_bytes as int, max_dimension as int),
            limits matches Some(l) ==> l.max_bytes() == max_bytes && l.max_dimension()
                == max_dimension,
    {
        if max_dimension >= 1 && max_bytes <= MAX_BYTES_CEILING && (max_dimension as u64) * 2
            <= max_bytes as u64 {
            Some(CodecLimits { max_bytes, max_dimension })
        } else {
            None
        }
    }

    /// The default limits: 5 MiB and 4096 pixels.
    pub fn standard() -> (limits: CodecLimits)
        ensures
            limits.max_bytes() == DEFAULT_MAX_BYTES,
            limits.max_dimension() == DEFAULT_MAX_DIMENSION,
    {
        CodecLimits { max_bytes: DEFAULT_MAX_BYTES, max_dimension: DEFAULT_MAX_DIMENSION }
    }

    /// The ceiling, in bytes, of an encoded image.
    pub fn byte_ceiling(&self) -> (bytes: usize)
        ensures
            bytes == self.max_bytes(),
            valid_limits(self.max_bytes(), self.max_dimension() as int),
    {
        proof {
            use_type_invariant(self);
        }
        self.max_bytes
    }

    /// The ceiling, in pixels, of either edge.
    pub fn edge_ceiling(&self) -> (pixels: u32)
        ensures
            pixels == self.max_dimension(),
            valid_limits(self.max_bytes(), self.max_dimension() as int),
    {
        proof {
            use_type_invariant(self);
        }
        self.max_dimension
    }
}

/// The size at which the first encoding attempt is made: the source scaled
/// into the edge ceiling, then into the pre-scaling budget.
pub open spec fn initial_size(source: Size, limits: CodecLimits) -> Size {
    prescaled(fitted(source, limits.max_dimension()), limits.budget() as u64)
}

/// The size at which the attempt after `shrinks` shrinking steps is made.
pub open spec fn attempt_size(initial: Size, shrinks: nat) -> Size
    decreases shrinks,
{
    if shrinks == 0 {
        initial
    } else {
        shrunk(attempt_size(initial, (shrinks - 1) as nat))
    }
}

/// Computes the size of the first encoding attempt.
pub fn plan(source: Size, limits: &CodecLimits) -> (initial: Size)
    ensures
        initial == initial_size(source, *limits),
        source.width >= 1 && source.height >= 1 ==> {
            &&& 1 <= initial.width <= source.width
            &&& 1 <= initial.height <= source.height
            &&& initial.width <= limits.max_dimension()
            &&& initial.height <= limits.max_dimension()
            &&& footprint(initial) <= limits.budget()
        },
{
    let max_bytes = limits.byte_ceiling();
    let max_dimension = limits.edge_ceiling();
    let within = fit_within(source, max_dimension);
    fit_budget(within, 2 * (max_bytes as u64))
}

/// What to do after one encoding attempt.
#[derive(Debug, Clone, Copy, PartialEq, Eq, Structural)]
pub enum Verdict {
    /// The encoded image is within the byte ceiling: take it.
    Accept,
    /// It is not: shrink the image to this size and encode again.
    Retry(Size),
    /// There is nothing to take and nothing more to try: fail with this.
    Fail(CodecError),
}

/// The verdict on the `attempt`-th encoding (counted from 1) of an image of
/// `size`, where `encoded` is the length of the file that came out, or
/// `None` where the encoder refused the image. A refused image is
/// `Unencodable`; a file within the ceiling is taken; a larger one asks for
/// another attempt on seven tenths of the size, and after the last attempt
/// the image is `TooLarge`.
pub open spec fn verdict(encoded: Option<int>, attempt: u32, size: Size, max_bytes: int)
    -> Verdict {
    match encoded {
        None => Verdict::Fail(CodecError::Unencodable),
        Some(len) => if len <= max_bytes {
            Verdict::Accept
        } else if attempt < MAX_ATTEMPTS {
            Verdict::Retry(shrunk(size))
        } else {
            Verdict::Fail(CodecError::TooLarge)
        },
    }
}

/// Judges one encoding attempt.
pub fn judge(encoded: Option<usize>, attempt: u32, size: Size, limits: &CodecLimits) -> (next:
    Verdict)
    ensures
        next == verdict(
            match encoded {
                Some(len) => Some(len as int),
                None => None,
            },
            attempt,
            size,
            limits.max_bytes(),
        ),
{
    match encoded {
        None => Verdict::Fail(CodecError::Unencodable),
        Some(len) => {
            if len <= limits.byte_ceiling() {
                Verdict::Accept
            } else if attempt < MAX_ATTEMPTS {
                Verdict::Retry(shrink(size))
            } else {
                Verdict::Fail(CodecError::TooLarge)
            }
        },
    }
}

/// The error type of the `image` crate.
#[verifier::external_type_specification]
#[verifier::external_body]
pub struct ExImageError(image::ImageError);

/// The error type of the `base64` crate's decoder.
#[verifier::external_type_specification]
#[verifier::external_body]
pub struct ExDecodeError(base64::DecodeError);

/// The standard base64 text, with padding, of a byte string, as produced by
/// the `base64` crate.
pub uninterp spec fn base64_text(bytes: Seq<u8>) -> Seq<char>;

/// The bytes that a standard base64 text stands for, as decoded by the
/// `base64` crate; `None` where the text is not valid base64.
pub uninterp spec fn base64_bytes(text: Seq<char>) -> Option<Seq<u8>>;

/// The PNG file that the `image` crate writes for an image of 8-bit RGBA
/// pixels; `None` where its encoder refuses the image.
pub uninterp spec fn png_encoding(pixels: Seq<u8>, width: u32, height: u32) -> Option<Seq<u8>>;

/// The image that the `image` crate reads from a PNG file, as width, height
/// and 8-bit RGBA pixels; `None` where its decoder refuses the file.
pub uninterp spec fn png_decoding(file: Seq<u8>) -> Option<(u32, u32, Seq<u8>)>;

/// The resampling filter used when an image is scaled down.
#[derive(Debug, Clone, Copy, PartialEq, Eq, Structural)]
pub enum Resampling {
    /// Slow and sharp; used for the first scaling of a capture.
    Lanczos3,
    /// Fast; used when an encoding attempt has to be repeated.
    Triangle,
}

/// Calls `base64::engine::general_purpose::STANDARD.encode`. Trusted: the
/// result is the standard padded base64 text of `bytes`, four characters for
/// every three bytes or part thereof, and the crate's decoder reads `bytes`
/// back from it. The input is kept short enough for that length to fit, as
/// the encoder panics otherwise.
#[verifier::external_body]
fn base64_encode(bytes: &[u8]) -> (text: String)
    requires
        4 * ((bytes@.len() + 2) / 3) <= usize::MAX,
    ensures
        text@ == base64_text(bytes@),
        text@.len() == 4 * ((bytes@.len() + 2) / 3),
        base64_bytes(text@) == Some(bytes@),
{
    base64::engine::general_purpose::STANDARD.encode(bytes)
}

/// Calls `base64::engine::general_purpose::STANDARD.decode`. Trusted: the
/// result is what the standard alphabet with padding decodes `text` to, and
/// an error exactly where `text` is not valid base64.
#[verifier::external_body]
fn base64_decode(text: &str) -> (bytes: Result<Vec<u8>, base64::DecodeError>)
    ensures
        base64_bytes(text@) == match bytes {
            Ok(decoded) => Some(decoded@),
            Err(_) => None,
        },
{
    base64::engine::general_purpose::STANDARD.decode(text)
}

/// Calls `image::imageops::resize` on 8-bit RGBA pixels. Trusted: the result
/// holds an image of exactly the size asked for. Nothing is claimed of the
/// pixel values. The sizes are kept non-empty, never larger than the source
/// and within the pixel ceiling, so that the buffers it allocates fit.
#[verifier::external_body]
fn resize_rgba(pixels: &[u8], from: Size, to: Size, filter: Resampling) -> (resized: Vec<u8>)
    requires
        pixels@.len() == footprint(from),
        1 <= to.width <= from.width,
        1 <= to.height <= from.height,
        from.width * from.height <= MAX_SOURCE_PIXELS,
    ensures
        resized@.len() == footprint(to),
{
    let kind = match filter {
        Resampling::Lanczos3 => image::imageops::FilterType::Lanczos3,
        Resampling::Triangle => image::imageops::FilterType::Triangle,
    };
    let source = image::ImageBuffer::<image::Rgba<u8>, &[u8]>::from_raw(
        from.width,
        from.height,
        pixels,
    ).unwrap();
    image::imageops::resize(&source, to.width, to.height, kind).into_raw()
}

/// Calls `image::ImageBuffer::write_to` with `ImageFormat::Png` on 8-bit
/// RGBA pixels. Trusted: the result is the PNG file that the crate writes
/// for this image, or its error where the encoder refuses; and, PNG being
/// lossless, the crate's decoder reads the same image back from that file.
/// The image is kept within the pixel ceiling, which is within what the
/// decoder allows itself to allocate.
#[verifier::external_body]
fn encode_png(pixels: &[u8], size: Size) -> (png: Result<Vec<u8>, image::ImageError>)
    requires
        pixels@.len() == footprint(size),
        size.width >= 1,
        size.height >= 1,
        size.width * size.height <= MAX_SOURCE_PIXELS,
    ensures
        png_encoding(pixels@, size.width, size.height) == match png {
            Ok(file) => Some(file@),
            Err(_) => None,
        },
        png matches Ok(file) ==> png_decoding(file@) == Some((size.width, size.height, pixels@)),
{
    let source = image::ImageBuffer::<image::Rgba<u8>, &[u8]>::from_raw(
        size.width,
        size.height,
        pixels,
    ).unwrap();
    let mut file = Vec::new();
    source.write_to(&mut std::io::Cursor::new(&mut file), image::ImageFormat::Png)?;
    Ok(file)
}

/// Calls `image::ImageReader::with_format` for `ImageFormat::Png` and
/// `decode`, then `DynamicImage::to_rgba8`. Trusted: the result is the image
/// that the crate reads from this file, with four bytes for each pixel of
/// its size, or its error where the decoder refuses the file.
#[verifier::external_body]
fn decode_png(file: &[u8]) -> (image: Result<(Size, Vec<u8>), image::ImageError>)
    ensures
        png_decoding(file@) == match image {
            Ok((size, pixels)) => Some((size.width, size.height, pixels@)),
            Err(_) => None,
        },
        image matches Ok((size, pixels)) ==> pixels@.len() == footprint(size),
{
    let reader = image::ImageReader::with_format(
        std::io::Cursor::new(file),
        image::ImageFormat::Png,
    );
    let decoded = reader.decode()?;
    let size = Size { width: decoded.width(), height: decoded.height() };
    Ok((size, decoded.to_rgba8().into_raw()))
}

/// An image as the clipboard holds it: rows of 8-bit RGBA pixels, four bytes
/// for each pixel of its size.
#[derive(Debug)]
pub struct RasterImage {
    size: Size,
    pixels: Vec<u8>,
}

impl RasterImage {
    #[verifier::type_invariant]
    spec fn filled(self) -> bool {
        self.pixels@.len() == footprint(self.size)
    }

    /// Width and height in pixels.
    pub closed spec fn size(&self) -> Size {
        self.size
    }

    /// The pixel bytes, row by row.
    pub closed spec fn pixels(&self) -> Seq<u8> {
        self.pixels@
    }

    /// An image of `size` from a buffer that holds at least its pixels; what
    /// the buffer holds beyond them is dropped. `None` where the buffer is
    /// too short.
    pub fn new(size: Size, pixels: Vec<u8>) -> (image: Option<RasterImage>)
        ensures
            image.is_some() == (pixels@.len() >= footprint(size)),
            image matches Some(raster) ==> raster.size() == size && raster.pixels()
                == pixels@.take(footprint(size)),
    {
        let mut kept = pixels;
        let _ = kept.len();
        match byte_count(size) {
            Some(needed) => {
                if kept.len() >= needed {
                    kept.truncate(needed);
                    assert(kept@ =~= pixels@.take(footprint(size)));
                    Some(RasterImage { size, pixels: kept })
                } else {
                    None
                }
            },
            None => None,
        }
    }

    /// An image of the declared `size` from decoded pixels, which must be
    /// exactly as many as the size declares.
    pub fn declared(size: Size, pixels: Vec<u8>) -> (image: Result<RasterImage, CodecError>)
        ensures
            match image {
                Ok(raster) => pixels@.len() == footprint(size) && raster.size() == size
                    && raster.pixels() == pixels@,
                Err(error) => pixels@.len() != footprint(size) && error == CodecError::Corrupt,
            },
    {
        let _ = pixels.len();
        match byte_count(size) {
            Some(needed) => {
                if pixels.len() == needed {
                    Ok(RasterImage { size, pixels })
                } else {
                    Err(CodecError::Corrupt)
                }
            },
            None => Err(CodecError::Corrupt),
        }
    }

    /// Width and height in pixels.
    pub fn dimensions(&self) -> (size: Size)
        ensures
            size == self.size(),
    {
        self.size
    }

    /// The pixel bytes, row by row.
    pub fn as_bytes(&self) -> (bytes: &[u8])
        ensures
            bytes@ == self.pixels(),
            bytes@.len() == footprint(self.size()),
    {
        proof {
            use_type_invariant(self);
        }
        self.pixels.as_slice()
    }
}

/// The number of bytes that the pixels of an image of `size` take, where it
/// can be the length of a buffer.
fn byte_count(size: Size) -> (count: Option<usize>)
    ensures
        match count {
            Some(bytes) => bytes == footprint(size),
            None => footprint(size) > usize::MAX,
        },
{
    assert(size.width * size.height <= 4294967295 * 4294967295) by (nonlinear_arith)
        requires
            0 <= size.width <= 4294967295,
            0 <= size.height <= 4294967295,
    ;
    let area = size.width as u64 * size.height as u64;
    assert(footprint(size) == 4 * area) by (nonlinear_arith)
        requires
            footprint(size) == 4 * size.width * size.height,
            area == size.width * size.height,
    ;
    if area <= (usize::MAX / 4) as u64 {
        Some((area as usize) * 4)
    } else {
        None
    }
}

/// Whether the codec takes an image of `size` for encoding: it has pixels,
/// and no more than `MAX_SOURCE_PIXELS`.
pub open spec fn encodable(size: Size) -> bool {
    size.width >= 1 && size.height >= 1 && size.width * size.height <= MAX_SOURCE_PIXELS
}

/// The error for an image that the codec does not take: `Unencodable` for
/// one without pixels, `TooLarge` for one above `MAX_SOURCE_PIXELS`.
pub open spec fn refusal(size: Size) -> CodecError {
    if size.width == 0 || size.height == 0 {
        CodecError::Unencodable
    } else {
        CodecError::TooLarge
    }
}

/// Whether the PNG file `file` holds an image of `size`: it decodes to that
/// size and to four bytes for each of its pixels.
pub open spec fn holds_image(file: Seq<u8>, size: Size) -> bool {
    png_decoding(file) matches Some((width, height, pixels)) && width == size.width && height
        == size.height && pixels.len() == footprint(size)
}

/// Whether `buffers` can be the pixels that the attempts on an image are
/// made on: one buffer for each attempt, of the size of that attempt, the
/// first of them the image's own pixels where the image needs no scaling.
/// What the resampler puts into the others is not claimed.
pub open spec fn is_trace(buffers: Seq<Seq<u8>>, pixels: Seq<u8>, source: Size, initial: Size)
    -> bool {
    &&& buffers.len() == MAX_ATTEMPTS
    &&& forall|i: int|
        0 <= i < MAX_ATTEMPTS ==> (#[trigger] buffers[i]).len() == footprint(
            attempt_size(initial, i as nat),
        )
    &&& initial == source ==> buffers[0] == pixels
}

/// The length of the PNG file of `buffer` as an image of `size`, or `None`
/// where the encoder refuses it.
pub open spec fn encoded_len(buffer: Seq<u8>, size: Size) -> Option<int> {
    match png_encoding(buffer, size.width, size.height) {
        Some(file) => Some(file.len() as int),
        None => None,
    }
}

/// How the attempts end, from the one after `shrinks` shrinking steps on:
/// with the number of shrinking steps before the attempt that was taken and
/// the file of that attempt, or with the error of the attempt that failed.
pub open spec fn attempts_outcome(
    buffers: Seq<Seq<u8>>,
    initial: Size,
    max_bytes: int,
    shrinks: nat,
) -> Result<(nat, Seq<u8>), CodecError>
    decreases MAX_ATTEMPTS - shrinks,
{
    let size = attempt_size(initial, shrinks);
    let buffer = buffers[shrinks as int];
    match verdict(encoded_len(buffer, size), (shrinks + 1) as u32, size, max_bytes) {
        Verdict::Accept => Ok((shrinks, png_encoding(buffer, size.width, size.height).unwrap())),
        Verdict::Fail(error) => Err(error),
        Verdict::Retry(_) => if shrinks + 1 < MAX_ATTEMPTS {
            attempts_outcome(buffers, initial, max_bytes, shrinks + 1)
        } else {
            Err(CodecError::TooLarge)
        },
    }
}

/// Whether `out` is how the attempts on `buffers` end: the file of the
/// first attempt that is within the byte ceiling, with the size of that
/// attempt, a file from which the decoder reads the pixels of that attempt
/// back; or the error of the attempt that failed.
pub open spec fn ends_as(
    buffers: Seq<Seq<u8>>,
    initial: Size,
    max_bytes: int,
    out: Result<(Seq<u8>, Size), CodecError>,
) -> bool {
    match attempts_outcome(buffers, initial, max_bytes, 0) {
        Ok((shrinks, file)) => {
            &&& shrinks < MAX_ATTEMPTS
            &&& file.len() <= max_bytes
            &&& out == Ok::<(Seq<u8>, Size), CodecError>((file, attempt_size(initial, shrinks)))
            &&& png_decoding(file) == Some(
                (
                    attempt_size(initial, shrinks).width,
                    attempt_size(initial, shrinks).height,
                    buffers[shrinks as int],
                ),
            )
        },
        Err(error) => out == Err::<(Seq<u8>, Size), CodecError>(error),
    }
}

/// What bringing the image of `pixels` and size `source` within `limits`
/// gives, as file and size or as error. An image that the codec does not
/// take is refused. Every other one goes through the attempts: the first
/// at the planned size, each further one at seven tenths of the size
/// before, and the outcome is that of the first attempt that does not ask
/// for another. Only the pixels that the resampler hands to an attempt are
/// left open.
pub open spec fn compressed(
    pixels: Seq<u8>,
    source: Size,
    limits: CodecLimits,
    out: Result<(Seq<u8>, Size), CodecError>,
) -> bool {
    if !encodable(source) {
        out == Err::<(Seq<u8>, Size), CodecError>(refusal(source))
    } else {
        exists|buffers: Seq<Seq<u8>>|
            #[trigger] is_trace(buffers, pixels, source, initial_size(source, limits)) && ends_as(
                buffers,
                initial_size(source, limits),
                limits.max_bytes(),
                out,
            )
    }
}

/// An image that was brought within the limits: the PNG file and the size of
/// the image it holds.
#[derive(Debug)]
pub struct EncodedImage {
    pub png: Vec<u8>,
    pub size: Size,
}

/// The outcome of [`compress`] as contracts see it.
pub open spec fn compress_view(out: Result<EncodedImage, CodecError>) -> Result<
    (Seq<u8>, Size),
    CodecError,
> {
    match out {
        Ok(encoded) => Ok((encoded.png@, encoded.size)),
        Err(error) => Err(error),
    }
}

/// Checks that the codec takes an image of `size`.
fn admit_source(size: Size) -> (admitted: Result<(), CodecError>)
    ensures
        admitted.is_ok() == encodable(size),
        admitted matches Err(error) ==> error == refusal(size),
{
    if size.width == 0 || size.height == 0 {
        return Err(CodecError::Unencodable);
    }
    assert(size.width * size.height <= 4294967295 * 4294967295) by (nonlinear_arith)
        requires
            0 <= size.width <= 4294967295,
            0 <= size.height <= 4294967295,
    ;
    if size.width as u64 * size.height as u64 > MAX_SOURCE_PIXELS {
        return Err(CodecError::TooLarge);
    }
    Ok(())
}

/// Whether the attempt after `shrinks` shrinking steps comes out above the
/// byte ceiling.
spec fn oversized(buffers: Seq<Seq<u8>>, initial: Size, max_bytes: int, shrinks: int) -> bool {
    encoded_len(buffers[shrinks], attempt_size(initial, shrinks as nat)) matches Some(len) && len
        > max_bytes
}

/// The buffers of the attempts that were made, with buffers of the right
/// size for those that were not.
spec fn padded(made: Seq<Seq<u8>>, initial: Size) -> Seq<Seq<u8>> {
    Seq::new(
        MAX_ATTEMPTS as nat,
        |i: int|
            if i < made.len() {
                made[i]
            } else {
                Seq::new(footprint(attempt_size(initial, i as nat)) as nat, |j: int| 0u8)
            },
    )
}

/// Attempts that come out oversized lead on to the next one.
proof fn lemma_retries_lead_on(
    buffers: Seq<Seq<u8>>,
    initial: Size,
    max_bytes: int,
    from: nat,
    to: nat,
)
    requires
        from <= to < MAX_ATTEMPTS,
        forall|i: int| from <= i < to ==> oversized(buffers, initial, max_bytes, i),
    ensures
        attempts_outcome(buffers, initial, max_bytes, from) == attempts_outcome(
            buffers,
            initial,
            max_bytes,
            to,
        ),
    decreases to - from,
{
    if from < to {
        assert(oversized(buffers, initial, max_bytes, from as int));
        lemma_retries_lead_on(buffers, initial, max_bytes, from + 1, to);
    }
}

/// Three encodings above the byte ceiling end in `TooLarge`, whatever the
/// pixels of the attempts are.
pub proof fn lemma_oversized_attempts_are_too_large(
    buffers: Seq<Seq<u8>>,
    initial: Size,
    max_bytes: int,
)
    requires
        forall|i: int|
            0 <= i < MAX_ATTEMPTS ==> (encoded_len(
                #[trigger] buffers[i],
                attempt_size(initial, i as nat),
            ) matches Some(len) && len > max_bytes),
    ensures
        attempts_outcome(buffers, initial, max_bytes, 0) == Err::<(nat, Seq<u8>), CodecError>(
            CodecError::TooLarge,
        ),
{
    assert forall|i: int| 0 <= i < 2 implies oversized(buffers, initial, max_bytes, i) by {
        assert(encoded_len(buffers[i], attempt_size(initial, i as nat)) matches Some(len) && len
            > max_bytes);
    }
    lemma_retries_lead_on(buffers, initial, max_bytes, 0, 2);
    assert(encoded_len(buffers[2], attempt_size(initial, 2)) matches Some(len) && len
        > max_bytes);
}

/// The attempts that were made, of which all but the last came out
/// oversized and the last was taken or failed, end as the last one did.
proof fn lemma_trace_ends(
    made: Seq<Seq<u8>>,
    pixels: Seq<u8>,
    source: Size,
    limits: CodecLimits,
    out: Result<(Seq<u8>, Size), CodecError>,
)
    requires
        encodable(source),
        1 <= made.len() <= MAX_ATTEMPTS,
        forall|i: int|
            0 <= i < made.len() ==> (#[trigger] made[i]).len() == footprint(
                attempt_size(initial_size(source, limits), i as nat),
            ),
        initial_size(source, limits) == source ==> made[0] == pixels,
        forall|i: int|
            0 <= i < made.len() - 1 ==> oversized(
                made,
                initial_size(source, limits),
                limits.max_bytes(),
                i,
            ),
        ({
            let last = (made.len() - 1) as nat;
            let size = attempt_size(initial_size(source, limits), last);
            match verdict(
                encoded_len(made[last as int], size),
                (last + 1) as u32,
                size,
                limits.max_bytes(),
            ) {
                Verdict::Accept => {
                    let file = png_encoding(made[last as int], size.width, size.height).unwrap();
                    &&& out == Ok::<(Seq<u8>, Size), CodecError>((file, size))
                    &&& png_decoding(file) == Some((size.width, size.height, made[last as int]))
                },
                Verdict::Fail(error) => out == Err::<(Seq<u8>, Size), CodecError>(error),
                Verdict::Retry(_) => false,
            }
        }),
    ensures
        compressed(pixels, source, limits, out),
{
    let initial = initial_size(source, limits);
    let max_bytes = limits.max_bytes();
    let buffers = padded(made, initial);
    let last = (made.len() - 1) as nat;
    assert forall|i: int| 0 <= i < MAX_ATTEMPTS implies (#[trigger] buffers[i]).len() == footprint(
        attempt_size(initial, i as nat),
    ) by {
        let size = attempt_size(initial, i as nat);
        assert(footprint(size) >= 0) by (nonlinear_arith)
            requires
                footprint(size) == 4 * size.width * size.height,
                size.width >= 0,
                size.height >= 0,
        ;
    }
    assert(is_trace(buffers, pixels, source, initial));
    assert forall|i: int| 0 <= i < last implies oversized(buffers, initial, max_bytes, i) by {
        assert(buffers[i] == made[i]);
        assert(oversized(made, initial, max_bytes, i));
    }
    lemma_retries_lead_on(buffers, initial, max_bytes, 0, last);
    assert(buffers[last as int] == made[last as int]);
    assert(ends_as(buffers, initial, max_bytes, out));
}

/// Brings `image` within `limits`: scales it into the edge ceiling and the
/// pre-scaling budget, encodes it as PNG, and while the file is above the
/// byte ceiling shrinks the image to seven tenths and encodes again, up to
/// `MAX_ATTEMPTS` encodings in all.
///
/// The outcome is what [`compressed`] describes. In particular a file that
/// comes back is within the byte ceiling and holds an image of the size it
/// is said to have; three oversized encodings end in `TooLarge`; and an
/// image that needs no scaling comes back as its own PNG file where that is
/// within the ceiling, a file from which the decoder reads the image's
/// pixels back.
pub fn compress(image: &RasterImage, limits: &CodecLimits) -> (out: Result<
    EncodedImage,
    CodecError,
>)
    ensures
        compressed(image.pixels(), image.size(), *limits, compress_view(out)),
        out matches Ok(encoded) ==> encoded.png@.len() <= limits.max_bytes() && holds_image(
            encoded.png@,
            encoded.size,
        ),
        encodable(image.size()) && initial_size(image.size(), *limits) == image.size() ==> (
        match png_encoding(image.pixels(), image.size().width, image.size().height) {
            Some(file) => file.len() <= limits.max_bytes() ==> (out matches Ok(encoded)
                && encoded.png@ == file && encoded.size == image.size() && png_decoding(file)
                == Some((image.size().width, image.size().height, image.pixels()))),
            None => out == Err::<EncodedImage, CodecError>(CodecError::Unencodable),
        }),
{
    let source = image.dimensions();
    match admit_source(source) {
        Err(error) => {
            return Err(error);
        },
        Ok(_) => {},
    }
    let initial = plan(source, limits);
    let mut size = initial;
    let mut pixels = if initial.width == source.width && initial.height == source.height {
        slice_to_vec(image.as_bytes())
    } else {
        resize_rgba(image.as_bytes(), source, initial, Resampling::Lanczos3)
    };
    let mut attempt: u32 = 1;
    let ghost mut made: Seq<Seq<u8>> = seq![pixels@];
    loop
        invariant
            encodable(source),
            source == image.size(),
            initial == initial_size(source, *limits),
            1 <= attempt <= MAX_ATTEMPTS,
            size == attempt_size(initial, (attempt - 1) as nat),
            1 <= size.width <= source.width,
            1 <= size.height <= source.height,
            pixels@.len() == footprint(size),
            made.len() == attempt,
            made[attempt - 1] == pixels@,
            forall|i: int|
                0 <= i < made.len() ==> (#[trigger] made[i]).len() == footprint(
                    attempt_size(initial, i as nat),
                ),
            initial == source ==> made[0] == image.pixels(),
            forall|i: int|
                0 <= i < made.len() - 1 ==> oversized(made, initial, limits.max_bytes(), i),
        decreases MAX_ATTEMPTS - attempt,
    {
        proof {
            lemma_within_ceiling(source, size);
        }
        let encoded = match encode_png(pixels.as_slice(), size) {
            Ok(file) => Some(file),
            Err(_) => None,
        };
        let length = match &encoded {
            Some(file) => Some(file.len()),
            None => None,
        };
        match judge(length, attempt, size, limits) {
            Verdict::Accept => {
                let png = match encoded {
                    Some(file) => file,
                    None => {
                        return Err(CodecError::Unencodable);
                    },
                };
                let out = Ok(EncodedImage { png, size });
                proof {
                    lemma_trace_ends(
                        made,
                        image.pixels(),
                        source,
                        *limits,
                        compress_view(out),
                    );
                    if attempt > 1 {
                        assert(oversized(made, initial, limits.max_bytes(), 0));
                    }
                }
                return out;
            },
            Verdict::Fail(error) => {
                let out = Err(error);
                proof {
                    lemma_trace_ends(
                        made,
                        image.pixels(),
                        source,
                        *limits,
                        compress_view(out),
                    );
                    if attempt > 1 {
                        assert(oversized(made, initial, limits.max_bytes(), 0));
                    }
                }
                return out;
            },
            Verdict::Retry(smaller) => {
                pixels = resize_rgba(pixels.as_slice(), size, smaller, Resampling::Triangle);
                proof {
                    assert(oversized(made.push(pixels@), initial, limits.max_bytes(), attempt - 1))
                        by {
                        assert(made.push(pixels@)[attempt - 1] == made[attempt - 1]);
                    }
                    assert forall|i: int| 0 <= i < made.len() implies oversized(
                        made.push(pixels@),
                        initial,
                        limits.max_bytes(),
                        i,
                    ) by {
                        assert(made.push(pixels@)[i] == made[i]);
                        if i < made.len() - 1 {
                            assert(oversized(made, initial, limits.max_bytes(), i));
                        }
                    }
                    made = made.push(pixels@);
                }
                size = smaller;
                attempt = attempt + 1;
            },
        }
    }
}

/// An image no larger than one within the pixel ceiling is within it too.
proof fn lemma_within_ceiling(source: Size, size: Size)
    requires
        encodable(source),
        size.width <= source.width,
        size.height <= source.height,
    ensures
        size.width * size.height <= MAX_SOURCE_PIXELS,
{
    assert(size.width * size.height <= source.width * source.height) by (nonlinear_arith)
        requires
            0 <= size.width <= source.width,
            0 <= size.height <= source.height,
    ;
}

/// The content value that carries the PNG file `png` of an image of `size`.
pub open spec fn image_content(png: Seq<u8>, size: Size) -> ContentView {
    ContentView::Image { data: base64_text(png), width: size.width, height: size.height }
}

/// The longest base64 text that a file within `max_bytes` can have.
pub open spec fn text_ceiling(max_bytes: int) -> int {
    4 * ((max_bytes + 2) / 3)
}

/// What decoding the payload `data` of an image value of the declared
/// dimensions gives: the pixels that its PNG file holds, where it is valid
/// base64 of a file that decodes to exactly as many pixels as declared, and
/// `Corrupt` everywhere else.
pub open spec fn decoded_pixels(data: Seq<char>, width: u32, height: u32) -> Result<
    Seq<u8>,
    CodecError,
> {
    match base64_bytes(data) {
        None => Err(CodecError::Corrupt),
        Some(file) => match png_decoding(file) {
            None => Err(CodecError::Corrupt),
            Some((_, _, pixels)) => if pixels.len() == footprint(Size { width, height }) {
                Ok(pixels)
            } else {
                Err(CodecError::Corrupt)
            },
        },
    }
}

/// Whether an image value decodes: its payload is valid base64 of a PNG
/// file that holds exactly as many pixels as the value declares.
pub open spec fn decodes(content: ContentView) -> bool {
    content matches ContentView::Image { data, width, height } && decoded_pixels(
        data,
        width,
        height,
    ).is_ok()
}

/// Wraps a PNG file into a content value.
fn wrap(png: &[u8], size: Size) -> (content: ClipboardContent)
    requires
        png@.len() <= MAX_BYTES_CEILING,
    ensures
        content@ == image_content(png@, size),
        content matches ClipboardContent::Image { data, .. } && data@.len() == text_ceiling(
            png@.len() as int,
        ),
        base64_bytes(base64_text(png@)) == Some(png@),
{
    ClipboardContent::Image { data: base64_encode(png), width: size.width, height: size.height }
}

/// What encoding the image of `pixels` and size `source` for the wire
/// gives. An image that the codec does not take is refused. Every other one
/// goes through the attempts that [`compressed`] describes, and the file of
/// the attempt that is taken travels as base64 with the size of that
/// attempt: a value that decodes to the very pixels that the attempt was
/// made on. Only the pixels that the resampler hands to an attempt are left
/// open.
pub open spec fn image_outcome(
    pixels: Seq<u8>,
    source: Size,
    limits: CodecLimits,
    out: Result<ClipboardContent, CodecError>,
) -> bool {
    if !encodable(source) {
        out == Err::<ClipboardContent, CodecError>(refusal(source))
    } else {
        exists|buffers: Seq<Seq<u8>>|
            #[trigger] is_trace(buffers, pixels, source, initial_size(source, limits))
                && carries(buffers, initial_size(source, limits), limits.max_bytes(), out)
    }
}

/// Whether `out` carries how the attempts on `buffers` end.
pub open spec fn carries(
    buffers: Seq<Seq<u8>>,
    initial: Size,
    max_bytes: int,
    out: Result<ClipboardContent, CodecError>,
) -> bool {
    match attempts_outcome(buffers, initial, max_bytes, 0) {
        Ok((shrinks, file)) => {
            &&& shrinks < MAX_ATTEMPTS
            &&& file.len() <= max_bytes
            &&& out matches Ok(content) && content@ == image_content(
                file,
                attempt_size(initial, shrinks),
            )
            &&& decoded_pixels(
                base64_text(file),
                attempt_size(initial, shrinks).width,
                attempt_size(initial, shrinks).height,
            ) == Ok::<Seq<u8>, CodecError>(buffers[shrinks as int])
        },
        Err(error) => out == Err::<ClipboardContent, CodecError>(error),
    }
}

/// Whether an image that came as a PNG file of `file_len` bytes holding an
/// image of `size` travels as it is: the file is within the byte ceiling,
/// both edges are within the edge ceiling, and the codec takes the size.
pub open spec fn travels(file_len: int, size: Size, limits: CodecLimits) -> bool {
    &&& file_len <= limits.max_bytes()
    &&& size.width <= limits.max_dimension()
    &&& size.height <= limits.max_dimension()
    &&& encodable(size)
}

/// What encoding an image that came as the PNG file `file` gives. A file
/// that does not decode is `Corrupt`. One that keeps all limits travels as
/// it is, with the size it decodes to. Every other one is encoded anew from
/// its pixels, with the outcome that [`image_outcome`] describes.
pub open spec fn file_outcome(
    file: Seq<u8>,
    limits: CodecLimits,
    out: Result<ClipboardContent, CodecError>,
) -> bool {
    match png_decoding(file) {
        None => out == Err::<ClipboardContent, CodecError>(CodecError::Corrupt),
        Some((width, height, pixels)) => if travels(
            file.len() as int,
            Size { width, height },
            limits,
        ) {
            &&& out matches Ok(content) && content@ == image_content(file, Size { width, height })
            &&& decoded_pixels(base64_text(file), width, height) == Ok::<Seq<u8>, CodecError>(
                pixels,
            )
        } else {
            image_outcome(pixels, Size { width, height }, limits, out)
        },
    }
}

/// Encodes a captured image for the wire: brings it within `limits` as
/// [`compress`] does and wraps the PNG file in base64.
///
/// The outcome is what [`image_outcome`] describes. In particular a value
/// that comes back is never above the byte ceiling and decodes to exactly as
/// many pixels as it declares, and an image that needs no scaling and whose
/// PNG file is within the ceiling comes back as a value that decodes to the
/// image's own pixels.
pub fn encode_image(image: &RasterImage, limits: &CodecLimits) -> (out: Result<
    ClipboardContent,
    CodecError,
>)
    ensures
        image_outcome(image.pixels(), image.size(), *limits, out),
        out matches Ok(content) ==> decodes(content@),
        out matches Ok(content) ==> content matches ClipboardContent::Image { data, .. }
            && data@.len() <= text_ceiling(limits.max_bytes()),
        encodable(image.size()) && initial_size(image.size(), *limits) == image.size() ==> (
        match png_encoding(image.pixels(), image.size().width, image.size().height) {
            Some(file) => file.len() <= limits.max_bytes() ==> (out matches Ok(content)
                && content@ == image_content(file, image.size()) && decoded_pixels(
                base64_text(file),
                image.size().width,
                image.size().height,
            ) == Ok::<Seq<u8>, CodecError>(image.pixels())),
            None => out == Err::<ClipboardContent, CodecError>(CodecError::Unencodable),
        }),
{
    let _ = limits.byte_ceiling();
    let ghost initial = initial_size(image.size(), *limits);
    match compress(image, limits) {
        Ok(encoded) => {
            let content = wrap(encoded.png.as_slice(), encoded.size);
            proof {
                lemma_text_ceiling_grows(encoded.png@.len() as int, limits.max_bytes());
                let out = Ok::<ClipboardContent, CodecError>(content);
                let buffers = choose|buffers: Seq<Seq<u8>>|
                    #[trigger] is_trace(buffers, image.pixels(), image.size(), initial) && ends_as(
                        buffers,
                        initial,
                        limits.max_bytes(),
                        compress_view(Ok(encoded)),
                    );
                assert(carries(buffers, initial, limits.max_bytes(), out));
            }
            Ok(content)
        },
        Err(error) => {
            proof {
                if encodable(image.size()) {
                    let out = Err::<ClipboardContent, CodecError>(error);
                    let buffers = choose|buffers: Seq<Seq<u8>>|
                        #[trigger] is_trace(buffers, image.pixels(), image.size(), initial)
                            && ends_as(
                            buffers,
                            initial,
                            limits.max_bytes(),
                            compress_view(Err(error)),
                        );
                    assert(carries(buffers, initial, limits.max_bytes(), out));
                }
            }
            Err(error)
        },
    }
}

/// With the default limits an encoded image leaves room in a frame: its
/// base64 text, and a kilobyte of envelope around it, are within the longest
/// payload that a frame carries.
pub proof fn lemma_default_image_fits_a_frame()
    ensures
        text_ceiling(DEFAULT_MAX_BYTES as int) + 1024 <= MAX_MESSAGE_LEN,
{
}

/// A longer file has no shorter base64 text.
proof fn lemma_text_ceiling_grows(shorter: int, longer: int)
    requires
        0 <= shorter <= longer,
    ensures
        text_ceiling(shorter) <= text_ceiling(longer),
{
}

/// Encodes an image that the clipboard hands over as a PNG file. A file
/// that keeps the byte ceiling and holds an image within the edge ceiling
/// travels as it is, with the size it decodes to; every other one is
/// decoded and encoded anew as [`encode_image`] does. A file that does not
/// decode is `Corrupt`.
pub fn encode_png_image(file: &[u8], limits: &CodecLimits) -> (out: Result<
    ClipboardContent,
    CodecError,
>)
    ensures
        file_outcome(file@, *limits, out),
        out matches Ok(content) ==> decodes(content@),
        out matches Ok(content) ==> content matches ClipboardContent::Image { data, .. }
            && data@.len() <= text_ceiling(limits.max_bytes()),
{
    let byte_ceiling = limits.byte_ceiling();
    let edge_ceiling = limits.edge_ceiling();
    let (size, pixels) = match decode_png(file) {
        Ok(decoded) => decoded,
        Err(_) => {
            return Err(CodecError::Corrupt);
        },
    };
    if file.len() <= byte_ceiling && size.width <= edge_ceiling && size.height <= edge_ceiling
        && admit_source(size).is_ok() {
        let content = wrap(file, size);
        proof {
            lemma_text_ceiling_grows(file@.len() as int, limits.max_bytes());
        }
        return Ok(content);
    }
    match RasterImage::declared(size, pixels) {
        Ok(image) => encode_image(&image, limits),
        Err(error) => Err(error),
    }
}

/// Decodes the payload of an image value to the PNG file it carries.
pub fn decode_png_file(data: &str) -> (out: Result<Vec<u8>, CodecError>)
    ensures
        match out {
            Ok(file) => base64_bytes(data@) == Some(file@),
            Err(error) => error == CodecError::Corrupt && base64_bytes(data@).is_none(),
        },
{
    match base64_decode(data) {
        Ok(file) => Ok(file),
        Err(_) => Err(CodecError::Corrupt),
    }
}

/// Decodes the payload of an image value back into pixels: base64 to a PNG
/// file, the file to 8-bit RGBA pixels, which must be exactly as many as the
/// declared dimensions say. Everything else is `Corrupt`.
pub fn decode_image(data: &str, width: u32, height: u32) -> (out: Result<RasterImage, CodecError>)
    ensures
        match out {
            Ok(image) => image.size() == (Size { width, height }) && decoded_pixels(
                data@,
                width,
                height,
            ) == Ok::<Seq<u8>, CodecError>(image.pixels()),
            Err(error) => decoded_pixels(data@, width, height) == Err::<Seq<u8>, CodecError>(
                error,
            ),
        },
{
    let file = match decode_png_file(data) {
        Ok(file) => file,
        Err(error) => {
            return Err(error);
        },
    };
    match decode_png(file.as_slice()) {
        Ok((_, pixels)) => RasterImage::declared(Size { width, height }, pixels),
        Err(_) => Err(CodecError::Corrupt),
    }
}

} // verus!
