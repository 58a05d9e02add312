//! The monitor of one clipboard. It knows which backend serves the
//! clipboard, turns what the backend reads into content values and content
//! values into what the backend writes, and remembers the fingerprint of the
//! value that was last captured or written, so that a value passes only when
//! it differs from that baseline.

use crate::codec::{
    base64_bytes, decode_image, decode_png_file, decoded_pixels, decodes, encode_image,
    encode_png_image, file_outcome, image_outcome, text_ceiling, CodecError, CodecLimits,
    RasterImage,
};
use crate::content::{ClipboardContent, ContentView};
use crate::fingerprint::{fingerprint_of, Fingerprint};
use crate::sizing::Size;
use vstd::prelude::*;

verus! {

/// Whether `content` counts as a change against `baseline`: there is no
/// baseline yet, or its fingerprint is another one.
pub open spec fn differs(baseline: Option<Seq<u8>>, content: ContentView) -> bool {
    baseline != Some(fingerprint_of(content))
}

/// The baseline after `content` was offered to a monitor with `baseline`.
pub open spec fn rebased(baseline: Option<Seq<u8>>, content: ContentView) -> Option<Seq<u8>> {
    if differs(baseline, content) {
        Some(fingerprint_of(content))
    } else {
        baseline
    }
}

/// The mechanism that reads and writes the system clipboard.
#[derive(Debug, Clone, Copy, PartialEq, Eq, Structural)]
pub enum ClipboardBackend {
    /// The portable clipboard library: images as raw pixels, no HTML.
    Arboard,
    /// The `wl-paste` and `wl-copy` tools of a Wayland session: images as
    /// PNG files, HTML as such.
    WlClipboard,
}

/// The backend to use: the Wayland tools where the session is a Wayland one
/// and the tools are installed, the portable library everywhere else.
pub open spec fn chosen_backend(wayland_session: bool, wl_clipboard_installed: bool)
    -> ClipboardBackend {
    if wayland_session && wl_clipboard_installed {
        ClipboardBackend::WlClipboard
    } else {
        ClipboardBackend::Arboard
    }
}

/// An image as a backend hands it over.
#[derive(Debug)]
pub enum CapturedImage {
    /// Raw 8-bit RGBA pixels.
    Pixels(RasterImage),
    /// A PNG file.
    Png(Vec<u8>),
}

/// What a backend is asked to put on the clipboard.
#[derive(Debug)]
pub enum ClipboardWrite {
    /// This plain text.
    Text(String),
    /// This image, as raw pixels.
    Image(RasterImage),
    /// This image, as a PNG file.
    Png(Vec<u8>),
    /// This HTML fragment.
    Html(String),
}

/// Picks what one reading of the clipboard gives: the image where there is
/// one and the codec took it, else the text where there is any.
pub fn choose_reading(
    image: Option<Result<ClipboardContent, CodecError>>,
    text: Option<String>,
) -> (reading: Option<ClipboardContent>)
    ensures
        reading == match image {
            Some(Ok(content)) => Some(content),
            _ => match text {
                Some(plain) => Some(ClipboardContent::Text(plain)),
                None => None,
            },
        },
{
    match image {
        Some(Ok(content)) => Some(content),
        _ => match text {
            Some(plain) => Some(ClipboardContent::Text(plain)),
            None => None,
        },
    }
}

/// The monitor of one clipboard.
#[derive(Debug)]
pub struct ClipboardMonitor {
    backend: ClipboardBackend,
    limits: CodecLimits,
    last_hash: Option<Fingerprint>,
}

impl ClipboardMonitor {
    /// The fingerprint that the next value is compared with, if any.
    pub closed spec fn baseline(&self) -> Option<Seq<u8>> {
        match self.last_hash {
            Some(fingerprint) => Some(fingerprint@),
            None => None,
        }
    }

    /// The backend that serves the clipboard.
    pub closed spec fn backend(&self) -> ClipboardBackend {
        self.backend
    }

    /// The limits that captured images are brought within.
    pub closed spec fn limits(&self) -> CodecLimits {
        self.limits
    }

    /// A monitor that has seen nothing yet, for the backend that fits the
    /// session, with the default codec limits.
    pub fn new(wayland_session: bool, wl_clipboard_installed: bool) -> (monitor: ClipboardMonitor)
        ensures
            monitor.baseline() == None::<Seq<u8>>,
            monitor.backend() == chosen_backend(wayland_session, wl_clipboard_installed),
            monitor.limits().max_bytes() == crate::codec::DEFAULT_MAX_BYTES,
            monitor.limits().max_dimension() == crate::codec::DEFAULT_MAX_DIMENSION,
    {
        let backend = if wayland_session && wl_clipboard_installed {
            ClipboardBackend::WlClipboard
        } else {
            ClipboardBackend::Arboard
        };
        ClipboardMonitor { backend, limits: CodecLimits::standard(), last_hash: None }
    }

    /// A monitor that has seen nothing yet, for `backend` and with `limits`.
    pub fn with_limits(backend: ClipboardBackend, limits: CodecLimits) -> (monitor:
        ClipboardMonitor)
        ensures
            monitor.baseline() == None::<Seq<u8>>,
            monitor.backend() == backend,
            monitor.limits() == limits,
    {
        ClipboardMonitor { backend, limits, last_hash: None }
    }

    /// The backend that serves the clipboard.
    pub fn backend_kind(&self) -> (backend: ClipboardBackend)
        ensures
            backend == self.backend(),
    {
        self.backend
    }

    /// Turns an image that the backend read into a content value, within
    /// the monitor's limits. A value that comes back is an image whose
    /// payload is within the ceiling and decodes to exactly as many pixels
    /// as it declares.
    pub fn capture_image(&self, image: &CapturedImage) -> (content: Result<
        ClipboardContent,
        CodecError,
    >)
        ensures
            match *image {
                CapturedImage::Pixels(pixels) => image_outcome(
                    pixels.pixels(),
                    pixels.size(),
                    self.limits(),
                    content,
                ),
                CapturedImage::Png(file) => file_outcome(file@, self.limits(), content),
            },
            content matches Ok(value) ==> decodes(value@),
            content matches Ok(value) ==> value matches ClipboardContent::Image { data, .. }
                && data@.len() <= text_ceiling(self.limits().max_bytes()),
    {
        match image {
            CapturedImage::Pixels(pixels) => encode_image(pixels, &self.limits),
            CapturedImage::Png(file) => encode_png_image(file.as_slice(), &self.limits),
        }
    }

    /// Decides whether `candidate` must be synchronised. It must when its
    /// fingerprint is not the baseline, and it then becomes the baseline;
    /// otherwise the monitor stays as it was.
    pub fn should_sync(&mut self, candidate: &ClipboardContent) -> (changed: bool)
        ensures
            changed == differs(old(self).baseline(), candidate@),
            final(self).baseline() == rebased(old(self).baseline(), candidate@),
            final(self).backend() == old(self).backend(),
            final(self).limits() == old(self).limits(),
    {
        let fingerprint = Fingerprint::of(candidate);
        let unchanged = match &self.last_hash {
            Some(last) => last.matches(&fingerprint),
            None => false,
        };
        if unchanged {
            false
        } else {
            self.last_hash = Some(fingerprint);
            true
        }
    }

    /// Filters one reading of the local clipboard: hands the value on when
    /// it is a change, and nothing when the reading failed or repeats the
    /// baseline.
    pub fn get_clipboard_content(&mut self, reading: Option<ClipboardContent>) -> (fresh: Option<
        ClipboardContent,
    >)
        ensures
            match reading {
                Some(content) => {
                    &&& fresh == if differs(old(self).baseline(), content@) {
                        Some(content)
                    } else {
                        None
                    }
                    &&& final(self).baseline() == rebased(old(self).baseline(), content@)
                },
                None => fresh.is_none() && final(self).baseline() == old(self).baseline(),
            },
            final(self).backend() == old(self).backend(),
            final(self).limits() == old(self).limits(),
    {
        match reading {
            Some(content) => {
                if self.should_sync(&content) {
                    Some(content)
                } else {
                    None
                }
            },
            None => None,
        }
    }

    /// Says what the backend must write to put `content` on the clipboard.
    /// Text is written as text. HTML is written as HTML where the backend
    /// takes it and as its plain-text fallback where not. An image is handed
    /// over as the backend takes it: as the PNG file it travels as, or
    /// decoded to pixels of the declared dimensions; a payload that does not
    /// decode is `Corrupt`.
    pub fn prepare_write(&self, content: &ClipboardContent) -> (write: Result<
        ClipboardWrite,
        CodecError,
    >)
        ensures
            match content@ {
                ContentView::Text(text) => write matches Ok(ClipboardWrite::Text(written))
                    && written@ == text,
                ContentView::Html { html, text } => match self.backend() {
                    ClipboardBackend::Arboard => write matches Ok(ClipboardWrite::Text(written))
                        && written@ == text,
                    ClipboardBackend::WlClipboard => write matches Ok(
                        ClipboardWrite::Html(written),
                    ) && written@ == html,
                },
                ContentView::Image { data, width, height } => match self.backend() {
                    ClipboardBackend::WlClipboard => match base64_bytes(data) {
                        Some(file) => write matches Ok(ClipboardWrite::Png(written)) && written@
                            == file,
                        None => write matches Err(error) && error == CodecError::Corrupt,
                    },
                    ClipboardBackend::Arboard => match decoded_pixels(data, width, height) {
                        Ok(pixels) => write matches Ok(ClipboardWrite::Image(image))
                            && image.size() == (Size { width, height }) && image.pixels()
                            == pixels,
                        Err(error) => write matches Err(failure) && failure == error,
                    },
                },
            },
    {
        match content {
            ClipboardContent::Text(text) => Ok(ClipboardWrite::Text(text.clone())),
            ClipboardContent::Html { html, text } => match self.backend {
                ClipboardBackend::Arboard => Ok(ClipboardWrite::Text(text.clone())),
                ClipboardBackend::WlClipboard => Ok(ClipboardWrite::Html(html.clone())),
            },
            ClipboardContent::Image { data, width, height } => match self.backend {
                ClipboardBackend::WlClipboard => match decode_png_file(data.as_str()) {
                    Ok(file) => Ok(ClipboardWrite::Png(file)),
                    Err(error) => Err(error),
                },
                ClipboardBackend::Arboard => match decode_image(data.as_str(), *width, *height) {
                    Ok(image) => Ok(ClipboardWrite::Image(image)),
                    Err(error) => Err(error),
                },
            },
        }
    }

    /// Takes the result of writing `content` to the local clipboard. After
    /// a write that succeeded the value is the baseline; after one that
    /// failed the clipboard holds what it held, and so does the monitor.
    pub fn on_write_result(&mut self, content: &ClipboardContent, written: bool)
        ensures
            final(self).baseline() == if written {
                Some(fingerprint_of(content@))
            } else {
                old(self).baseline()
            },
            final(self).backend() == old(self).backend(),
            final(self).limits() == old(self).limits(),
    {
        if written {
            self.set_clipboard_content(content);
        }
    }

    /// Records that `content` now sits on the local clipboard because it was
    /// written there, so that reading it back is not taken for a change.
    pub fn set_clipboard_content(&mut self, content: &ClipboardContent)
        ensures
            final(self).baseline() == Some(fingerprint_of(content@)),
            final(self).backend() == old(self).backend(),
            final(self).limits() == old(self).limits(),
    {
        self.last_hash = Some(Fingerprint::of(content));
    }
}

/// Offering the same value twice never reports a change the second time,
/// and on a monitor without a baseline the first offer always does.
pub proof fn lemma_dedup_idempotent(baseline: Option<Seq<u8>>, content: ContentView)
    ensures
        !differs(rebased(baseline, content), content),
        rebased(rebased(baseline, content), content) == rebased(baseline, content),
        differs(None, content),
{
}

} // verus!
