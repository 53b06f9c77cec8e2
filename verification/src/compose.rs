//! Layout composition: every drawing decision the renderer needs.
//!
//! From a validated request the composer fixes the canvas size, the
//! background fill (explicit or default peach), whether a border is
//! stroked and in which color and thickness (drawn only when a thickness
//! was explicitly supplied; its color defaults to black), the label (the
//! raw dimension text verbatim), the contrast text color picked by
//! perceived luminance, and whether the watermark appears (exactly when
//! the canvas is at least 200 wide).  Pixel geometry that depends on
//! measured glyph extents is left to the rendering driver.

use vstd::prelude::*;

use crate::color::Color;
use crate::color::OPAQUE_MARKER;
use crate::color::PerceivedLuminance;
use crate::color::spec_perceived_luminance;
use crate::request::ImageConfig;
use crate::request::ImageMeta;

verus! {

/// The watermark label drawn near the bottom-right corner of wide images.
pub fn watermark_text() -> (s: &'static str)
    ensures
        s@ == "powered by rsmidt.dev"@,
{
    "powered by rsmidt.dev"
}

/// A border stroke: the rectangle covering the canvas bounds is stroked
/// with this color at this line width.
#[derive(Debug, PartialEq, Eq, Structural, Clone, Copy)]
pub struct Border {
    pub color: Color,
    pub thickness: u8,
}

/// Everything the rendering driver draws, in drawing order: background
/// fill, optional border stroke, centered bold label, and (on canvases at
/// least 200 wide) the watermark in the same contrast color at half
/// opacity.
#[derive(Debug)]
pub struct Layout {
    pub width: u32,
    pub height: u32,
    pub background: Color,
    pub border: Option<Border>,
    pub label: String,
    pub text_color: Color,
    pub watermark: bool,
}

/// The default background: the fixed peach color FFD8C2.
pub open spec fn default_background() -> Color {
    Color { r: 0xFF, g: 0xD8, b: 0xC2, a: OPAQUE_MARKER }
}

/// The default border color: black.
pub open spec fn default_border() -> Color {
    Color { r: 0, g: 0, b: 0, a: OPAQUE_MARKER }
}

/// The near-black text color 111827 used on light backgrounds.
pub open spec fn text_on_light() -> Color {
    Color { r: 0x11, g: 0x18, b: 0x27, a: OPAQUE_MARKER }
}

/// The near-white text color F9FAFB used on dark backgrounds.
pub open spec fn text_on_dark() -> Color {
    Color { r: 0xF9, g: 0xFA, b: 0xFB, a: OPAQUE_MARKER }
}

/// The background the canvas is filled with: the explicit background
/// color, or the default peach.
pub open spec fn spec_background(config: ImageConfig) -> Color {
    match config.bg {
        Some(c) => c,
        None => default_background(),
    }
}

/// The border stroke, present exactly when a border thickness was
/// explicitly supplied; its color is the explicit border color or black.
pub open spec fn spec_border(config: ImageConfig) -> Option<Border> {
    match config.br_s {
        None => None,
        Some(t) => Some(
            Border {
                color: match config.br {
                    Some(c) => c,
                    None => default_border(),
                },
                thickness: t,
            },
        ),
    }
}

/// The label color: near-black on a light background, near-white on a
/// dark one.
pub open spec fn spec_text_color(background: Color) -> Color {
    if spec_perceived_luminance(background) == PerceivedLuminance::Light {
        text_on_light()
    } else {
        text_on_dark()
    }
}

/// Computes the layout of a validated request: background, border, label,
/// contrast text color, and watermark presence.  The watermark appears
/// exactly on canvases at least 200 wide.
pub fn compose_layout(meta: &ImageMeta, width: u32, height: u32) -> (l: Layout)
    ensures
        l.width == width,
        l.height == height,
        l.background == spec_background(meta.config),
        l.border == spec_border(meta.config),
        l.label@ == meta.raw_dimensions@,
        l.text_color == spec_text_color(l.background),
        l.watermark == (width >= 200),
{
    let background = match meta.config.bg {
        Some(c) => c,
        None => Color { r: 0xFF, g: 0xD8, b: 0xC2, a: OPAQUE_MARKER },
    };
    let border = match meta.config.br_s {
        None => None,
        Some(t) => Some(
            Border {
                color: match meta.config.br {
                    Some(c) => c,
                    None => Color { r: 0, g: 0, b: 0, a: OPAQUE_MARKER },
                },
                thickness: t,
            },
        ),
    };
    let text_color = match background.perceived_luminance() {
        PerceivedLuminance::Light => Color { r: 0x11, g: 0x18, b: 0x27, a: OPAQUE_MARKER },
        PerceivedLuminance::Dark => Color { r: 0xF9, g: 0xFA, b: 0xFB, a: OPAQUE_MARKER },
    };
    Layout {
        width,
        height,
        background,
        border,
        label: meta.raw_dimensions.clone(),
        text_color,
        watermark: width >= 200,
    }
}

} // verus!
