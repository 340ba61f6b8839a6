//! PNG clipboard: what is offered and served while the selection is owned.

use crate::capture::png::{
    encode_png, png_image, png_stream, swapped, PngError, MAX_DECODED_WIDTH,
};
use crate::capture::DibBuffer;
use crate::text::same_text;
use vstd::prelude::*;

verus! {

/// The only type offered.
pub const MIME_IMAGE_PNG: &'static str = "image/png";

/// Why a copy failed.
#[derive(Clone, Copy, PartialEq, Eq, Structural, Debug)]
pub enum ClipboardError {
    /// The frame could not be encoded.
    Encode(PngError),
    /// No input event was received yet, so the selection cannot be claimed.
    NoInput,
}

impl ClipboardError {
    /// What the error says.
    pub fn message(self) -> (r: &'static str)
        ensures
            r@ == (match self {
                ClipboardError::Encode(_) => "encoding the snip as PNG"@,
                ClipboardError::NoInput => "no input event has been received yet; cannot claim the clipboard selection"@,
            }),
    {
        match self {
            ClipboardError::Encode(_) => "encoding the snip as PNG",
            ClipboardError::NoInput => "no input event has been received yet; cannot claim the clipboard selection",
        }
    }
}

/// A selection is claimed with the serial of a real input event; 0 means there
/// was none.
pub fn require_serial(serial: u32) -> (r: Result<u32, ClipboardError>)
    ensures
        serial == 0 ==> r == Err::<u32, ClipboardError>(ClipboardError::NoInput),
        serial != 0 ==> r == Ok::<u32, ClipboardError>(serial),
{
    if serial == 0 {
        return Err(ClipboardError::NoInput);
    }
    Ok(serial)
}

/// What the clipboard holds for other programs.
pub struct ClipboardShared {
    /// PNG bytes of the last copy.
    pub png: Option<Vec<u8>>,
    /// Id of the live selection source.
    pub source: Option<u32>,
}

impl ClipboardShared {
    pub fn new() -> (r: Self)
        ensures
            r.png is None,
            r.source is None,
    {
        Self { png: None, source: None }
    }

    /// Take over a copied frame: its PNG replaces the last one, and `source`
    /// (a fresh selection source) the last source. The serial to claim the
    /// selection with is returned; on an error nothing changes.
    pub fn copy_image_to_clipboard(&mut self, frame: &DibBuffer, serial: u32, source: u32) -> (r:
        Result<u32, ClipboardError>)
        ensures
            match r {
                Ok(s) => {
                    &&& s == serial
                    &&& serial != 0
                    &&& frame.wf()
                    &&& frame.width != 0
                    &&& frame.height != 0
                    &&& final(self).source == Some(source)
                    &&& final(self).png matches Some(png) && {
                        &&& png@ == png_stream(frame.width, frame.height, swapped(frame.pixels@))
                        &&& frame.width <= MAX_DECODED_WIDTH ==> png_image(png@) == Some(
                            (frame.width, frame.height, swapped(frame.pixels@)),
                        )
                    }
                },
                Err(e) => {
                    &&& *final(self) == *old(self)
                    &&& if frame.width == 0 || frame.height == 0 {
                        e == ClipboardError::Encode(PngError::Empty)
                    } else if !frame.wf() {
                        e == ClipboardError::Encode(PngError::Layout)
                    } else {
                        serial == 0 && e == ClipboardError::NoInput
                    }
                },
            },
    {
        match encode_png(frame) {
            Err(e) => Err(ClipboardError::Encode(e)),
            Ok(png) => match require_serial(serial) {
                Err(e) => Err(e),
                Ok(s) => {
                    self.png = Some(png);
                    self.source = Some(source);
                    Ok(s)
                },
            },
        }
    }

    /// The bytes to write for a request of this type; `None` for other types
    /// or before the first copy.
    pub fn serve(&self, mime_type: &str) -> (r: Option<&Vec<u8>>)
        ensures
            match r {
                Some(bytes) => mime_type@ == MIME_IMAGE_PNG@ && self.png == Some(*bytes),
                None => mime_type@ != MIME_IMAGE_PNG@ || self.png is None,
            },
    {
        if !same_text(mime_type, MIME_IMAGE_PNG) {
            return None;
        }
        self.png.as_ref()
    }

    /// A source was cancelled: forget it when it is the live one.
    pub fn cancelled(&mut self, source: u32)
        ensures
            final(self).png == old(self).png,
            final(self).source == (if old(self).source == Some(source) {
                None
            } else {
                old(self).source
            }),
    {
        match self.source {
            Some(live) => {
                if live == source {
                    self.source = None;
                }
            },
            None => {},
        }
    }
}

} // verus!
