//! Drawing one frame and showing it.

use vstd::prelude::*;
use vstd::string::StringExecFns;

use crate::platform::{PhysicalSize, PlatformError};
use crate::software::fourcc;
use crate::software::fourcc::DrmFourcc;
use crate::software::pixels;
use crate::software::pixels::{PixelLayout, PixelsMut, PodCastError};

verus! {

/// What the back buffer holds before a frame is drawn.
#[derive(Clone, Copy, Debug, PartialEq, Eq, Structural)]
pub enum RepaintBufferType {
    /// Nothing that can be used.
    NewBuffer,
    /// The last frame.
    ReusedBuffer,
    /// The frame before the last one.
    SwappedBuffers,
}

/// By how much the picture is turned on the display.
#[derive(Clone, Copy, Debug, PartialEq, Eq, Structural)]
pub enum RenderingRotation {
    NoRotation,
    Rotate90,
    Rotate180,
    Rotate270,
}

/// How the renderer is set up for a frame.
#[derive(Clone, Copy, Debug, PartialEq, Eq, Structural)]
pub struct FrameSetup {
    pub repaint_buffer_type: RepaintBufferType,
    pub rotation: RenderingRotation,
    /// The number of pixels from one line to the next.
    pub pixel_stride: usize,
}

/// Why a frame could not be drawn.
#[derive(Debug)]
pub enum FrameError {
    /// The frame buffer has a format that is not rendered to.
    Unsupported(PlatformError),
    /// The bytes of the frame buffer are no pixels.
    Cast(PodCastError),
}

/// What is to be done next for a frame.
#[derive(Debug)]
pub enum FrameStep {
    /// Map the back buffer, draw into it with [`SoftwareRendererAdapter::frame`], and tell
    /// [`SoftwareRendererAdapter::mapped`] how it went.
    MapBackBuffer,
    /// Show the back buffer, and tell [`SoftwareRendererAdapter::presented`] how it went.
    Present,
    /// The frame is over.
    Done(Result<(), PlatformError>),
}

/// The codes of the formats that are rendered to, the preferred one first.
pub fn supported_formats() -> (formats: [u32; 2])
    ensures
        formats@ == seq![fourcc::XRGB8888, fourcc::RGB565],
{
    let formats: [u32; 2] = [fourcc::XRGB8888, fourcc::RGB565];
    assert(formats@ =~= seq![fourcc::XRGB8888, fourcc::RGB565]);
    formats
}

/// The layout of the pixels of a format, if it is rendered to.
pub open spec fn layout_of(code: u32) -> Option<PixelLayout> {
    if code == fourcc::XRGB8888 {
        Some(PixelLayout::Xrgb8888)
    } else if code == fourcc::RGB565 {
        Some(PixelLayout::Rgb565)
    } else {
        None
    }
}

/// What the back buffer holds, given how many frames ago it was shown.
pub open spec fn buffer_of_age(age: u8) -> RepaintBufferType {
    if age == 1 {
        RepaintBufferType::ReusedBuffer
    } else if age == 2 {
        RepaintBufferType::SwappedBuffers
    } else {
        RepaintBufferType::NewBuffer
    }
}

/// The text of the error for a format that is not rendered to.
pub open spec fn unsupported_text(code: u32) -> Seq<char> {
    "Unsupported frame buffer format "@ + fourcc::letters(code)
        + " used with software renderer"@
}

/// Draws with the software renderer on a display of a fixed size.
#[derive(Debug)]
pub struct SoftwareRendererAdapter {
    size: PhysicalSize,
}

impl SoftwareRendererAdapter {
    pub closed spec fn spec_size(&self) -> PhysicalSize {
        self.size
    }

    /// An adapter for a display of the given width and height.
    pub fn new(width: u32, height: u32) -> (adapter: SoftwareRendererAdapter)
        ensures
            adapter.spec_size() == (PhysicalSize { width, height }),
    {
        SoftwareRendererAdapter { size: PhysicalSize { width, height } }
    }

    /// The size of the display.
    pub fn size(&self) -> (size: PhysicalSize)
        ensures
            size == self.spec_size(),
    {
        self.size
    }

    /// Begin a frame.
    pub fn render_and_present(&self) -> (step: FrameStep)
        ensures
            step == FrameStep::MapBackBuffer,
    {
        FrameStep::MapBackBuffer
    }

    /// Set up the renderer for a frame, and see the mapped back buffer as pixels. `age` tells how
    /// many frames ago the buffer was shown.
    pub fn frame<'a>(
        &self,
        rotation: RenderingRotation,
        bytes: &'a mut [u8],
        age: u8,
        format: &DrmFourcc,
    ) -> (r: (FrameSetup, Result<PixelsMut<'a>, FrameError>))
        ensures
            r.0 == (FrameSetup {
                repaint_buffer_type: buffer_of_age(age),
                rotation,
                pixel_stride: self.spec_size().width as usize,
            }),
            match r.1 {
                Ok(PixelsMut::Xrgb8888(px)) => {
                    &&& layout_of(format.spec_code()) == Some(PixelLayout::Xrgb8888)
                    &&& pixels::seen_as(
                        old(bytes)@,
                        pixels::words(px@),
                        final(bytes)@,
                        pixels::words(final(px)@),
                        4,
                    )
                },
                Ok(PixelsMut::Rgb565(px)) => {
                    &&& layout_of(format.spec_code()) == Some(PixelLayout::Rgb565)
                    &&& pixels::seen_as(
                        old(bytes)@,
                        pixels::halves(px@),
                        final(bytes)@,
                        pixels::halves(final(px)@),
                        2,
                    )
                },
                Err(FrameError::Unsupported(e)) => {
                    &&& layout_of(format.spec_code()) is None
                    &&& final(bytes)@ == old(bytes)@
                    &&& e matches PlatformError::Other(text)
                    &&& text@ == unsupported_text(format.spec_code())
                },
                Err(FrameError::Cast(e)) => {
                    &&& layout_of(format.spec_code()) matches Some(layout)
                    &&& pixels::cast_refused(old(bytes)@, layout, e)
                    &&& final(bytes)@ == old(bytes)@
                    &&& e == PodCastError::TargetAlignmentGreaterAndInputNotAligned || (e
                        == PodCastError::OutputSliceWouldHaveSlop && old(bytes)@.len() % (
                    if format.spec_code() == fourcc::XRGB8888 {
                        4
                    } else {
                        2
                    }) != 0)
                },
            },
    {
        let repaint_buffer_type = match age {
            1 => RepaintBufferType::ReusedBuffer,
            2 => RepaintBufferType::SwappedBuffers,
            _ => RepaintBufferType::NewBuffer,
        };
        let setup = FrameSetup {
            repaint_buffer_type,
            rotation,
            pixel_stride: self.size.width as usize,
        };
        let code: u32 = format.code();
        let layout = if code == fourcc::XRGB8888 {
            PixelLayout::Xrgb8888
        } else if code == fourcc::RGB565 {
            PixelLayout::Rgb565
        } else {
            let text: String = String::from_str("Unsupported frame buffer format ").concat(
                format.name(),
            ).concat(" used with software renderer");
            return (setup, Err(FrameError::Unsupported(PlatformError::Other(text))));
        };
        match pixels::cast_pixels(bytes, layout) {
            Ok(px) => (setup, Ok(px)),
            Err(e) => (setup, Err(FrameError::Cast(e))),
        }
    }

    /// Go on once the back buffer has been mapped and drawn into: a failure ends the frame, and
    /// nothing is shown.
    pub fn mapped(&self, outcome: Result<(), PlatformError>) -> (step: FrameStep)
        ensures
            step == match outcome {
                Ok(()) => FrameStep::Present,
                Err(e) => FrameStep::Done(Err(e)),
            },
    {
        match outcome {
            Ok(()) => FrameStep::Present,
            Err(e) => FrameStep::Done(Err(e)),
        }
    }

    /// Go on once the back buffer has been shown, or not.
    pub fn presented(&self, outcome: Result<(), PlatformError>) -> (step: FrameStep)
        ensures
            step == FrameStep::Done(outcome),
    {
        FrameStep::Done(outcome)
    }
}

/// A buffer that was shown one frame ago holds the last frame, one that was shown two frames ago the
/// frame before it; of any other nothing can be used.
pub proof fn law_buffer_ages(age: u8)
    ensures
        buffer_of_age(age) == RepaintBufferType::ReusedBuffer <==> age == 1,
        buffer_of_age(age) == RepaintBufferType::SwappedBuffers <==> age == 2,
        buffer_of_age(age) == RepaintBufferType::NewBuffer <==> age != 1 && age != 2,
{
}

/// A format is rendered to as the layout that its four letters name, and no format without one of
/// these two names is.
pub proof fn law_layouts_by_letters(code: u32)
    ensures
        layout_of(code) == Some(PixelLayout::Xrgb8888) <==> fourcc::letters(code) == seq![
            'X',
            'R',
            '2',
            '4',
        ],
        layout_of(code) == Some(PixelLayout::Rgb565) <==> fourcc::letters(code) == seq![
            'R',
            'G',
            '1',
            '6',
        ],
{
    fourcc::law_letters_make_the_code(code);
    fourcc::law_letters_make_the_code(fourcc::XRGB8888);
    fourcc::law_letters_make_the_code(fourcc::RGB565);
    assert(fourcc::letters(fourcc::XRGB8888) =~= seq!['X', 'R', '2', '4']);
    assert(fourcc::letters(fourcc::RGB565) =~= seq!['R', 'G', '1', '6']);
}

/// The error for a format that is not rendered to names it: the text says the four letters between
/// a fixed beginning and a fixed end, and so differs from that of any other format.
pub proof fn law_unsupported_is_named(code: u32, other: u32)
    ensures
        unsupported_text(code) == "Unsupported frame buffer format "@ + fourcc::letters(code)
            + " used with software renderer"@,
        unsupported_text(code) == unsupported_text(other) ==> code == other,
{
    let start = "Unsupported frame buffer format "@;
    let at = start.len() as int;
    assert(unsupported_text(code).subrange(at, at + 4) =~= fourcc::letters(code));
    assert(unsupported_text(other).subrange(at, at + 4) =~= fourcc::letters(other));
    fourcc::law_letters_make_the_code(code);
    fourcc::law_letters_make_the_code(other);
}

/// The formats that are asked of the display are those that are rendered to.
pub proof fn law_supported_formats(code: u32)
    ensures
        seq![fourcc::XRGB8888, fourcc::RGB565].contains(code) <==> layout_of(code) is Some,
{
    let formats = seq![fourcc::XRGB8888, fourcc::RGB565];
    assert(formats[0] == fourcc::XRGB8888 && formats[1] == fourcc::RGB565);
}

} // verus!
