//! PDF rendering and document metadata.
//!
//! The rendering engine itself is an outside collaborator: it takes a page
//! index and a target width and yields raw pixels, or fails. What the
//! library owns is the width policy — how a requested window width becomes
//! the width handed to the engine — and the shape of what comes back.

use crate::cache::RenderedPage;
use vstd::prelude::*;

verus! {

/// A PDF document's metadata, captured once at startup. The engine-side
/// handle stays with whoever opened the document.
pub struct Document {
    pub total_pages: u16,
}

/// The engine-side document handle, opaque to the library's logic.
#[verifier::external_type_specification]
#[verifier::external_body]
pub struct ExPdfiumDocument<'a>(pdfium_render::prelude::PdfDocument<'a>);

/// The width handed to the engine: the requested width, raised to at least
/// 800 pixels so a small window never forces an unreadable render, or a
/// fixed 2000 fallback when no usable width was requested.
pub open spec fn render_target_width_spec(requested: u16) -> i32 {
    if requested > 0 {
        if requested >= 800 {
            requested as i32
        } else {
            800
        }
    } else {
        2000
    }
}

/// Apply the width policy to a requested width.
pub fn render_target_width(requested: u16) -> (r: i32)
    ensures
        r == render_target_width_spec(requested),
{
    if requested > 0 {
        if requested >= 800 {
            requested as i32
        } else {
            800
        }
    } else {
        2000
    }
}

/// What the engine's signed page count becomes in the viewer: clamped into
/// the unsigned 16-bit range.
pub open spec fn page_count_u16_spec(count: i32) -> u16 {
    if count < 0 {
        0
    } else if count > u16::MAX as i32 {
        u16::MAX
    } else {
        count as u16
    }
}

/// The engine reports page counts as a signed integer; the viewer works on
/// an unsigned 16-bit count.
pub fn page_count_u16(count: i32) -> (r: u16)
    ensures
        r == page_count_u16_spec(count),
{
    if count < 0 {
        0
    } else if count > 65535 {
        65535
    } else {
        count as u16
    }
}

/// Relies on pdfium_render: `PdfPages::get` looks the page up,
/// `PdfPage::render_with_config` renders it at the given target width with
/// aspect ratio preserved, and the `image` crate's RGBA conversion yields a
/// buffer of exactly 4 bytes per pixel (`RgbaImage::into_raw`). Any engine
/// failure comes back as nothing.
#[verifier::external_body]
fn render_page_raw(
    document: &pdfium_render::prelude::PdfDocument<'_>,
    page_index: u16,
    target_width: i32,
) -> (r: Option<RenderedPage>)
    ensures
        r matches Some(p) ==> p.wf(),
{
    let page = document.pages().get(page_index as i32).ok()?;
    let config = pdfium_render::prelude::PdfRenderConfig::new()
        .rotate_if_landscape(
            pdfium_render::prelude::PdfPageRenderRotation::None,
            true,
        )
        .set_target_width(target_width);
    let bitmap = page.render_with_config(&config).ok()?;
    let rgba = bitmap.as_image().ok()?.to_rgba8();
    let width = rgba.width();
    let height = rgba.height();
    Some(RenderedPage { pixels: rgba.into_raw(), width, height })
}

/// PDF renderer that applies the width policy before calling the engine.
pub struct PdfRenderer;

impl PdfRenderer {
    /// Render a page to RGBA pixels at the policy's target width. Yields
    /// the pixels with their dimensions — 4 bytes per pixel — or nothing
    /// when the engine fails for this page.
    pub fn render_page_to_pixels(
        document: &pdfium_render::prelude::PdfDocument<'_>,
        page_index: u16,
        target_w: u16,
        _target_h: u16,
    ) -> (r: Option<(Vec<u8>, u32, u32)>)
        ensures
            r matches Some((pixels, width, height)) ==> pixels@.len() == width as int
                * height as int * 4,
    {
        let config_width = render_target_width(target_w);
        match render_page_raw(document, page_index, config_width) {
            Some(p) => Some((p.pixels, p.width, p.height)),
            None => None,
        }
    }
}

} // verus!
