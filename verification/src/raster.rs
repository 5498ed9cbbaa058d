//! Rasterisation of an SVG document into a square RGBA icon with resvg.

use vstd::prelude::*;
use vstd::string::StringExecFns;
use crate::pixels::{unpremultiply, unpremultiplied};

verus! {

/// Pixel size the icon is rasterised at; the shell scales it to the tray.
pub const ICON_SIZE: u32 = 32;

#[verifier::external_type_specification]
#[verifier::external_body]
pub struct ExSvgTree(resvg::usvg::Tree);

#[verifier::external_type_specification]
#[verifier::external_body]
pub struct ExSvgError(resvg::usvg::Error);

#[verifier::external_type_specification]
#[verifier::external_body]
pub struct ExPixmap(resvg::tiny_skia::Pixmap);

/// The RGBA bytes (premultiplied alpha, row-major) that a pixmap holds.
pub uninterp spec fn pixmap_data(p: resvg::tiny_skia::Pixmap) -> Seq<u8>;

/// Whether `Pixmap::new` accepts a `width` x `height` pixmap: neither side is
/// zero, a row's byte count fits `i32`, and the whole buffer fits `usize`.
pub open spec fn pixmap_size_ok(width: u32, height: u32) -> bool {
    &&& width > 0
    &&& height > 0
    &&& width * 4 <= i32::MAX
    &&& width * height * 4 <= usize::MAX
}

/// Whether `usvg::Tree::from_str` with `usvg::Options::default()` accepts the
/// SVG text `text`: it is well-formed XML, within the element limit, with a
/// valid size. This depends on the text alone: with the default options a
/// referenced file that cannot be loaded only drops its element.
pub uninterp spec fn svg_parses(text: Seq<char>) -> bool;

/// Whether `resvg::render` with the identity transform, drawing the SVG text
/// `svg` (parsed with the default options) onto a pixmap holding the bytes
/// `before`, can leave it holding `after`. This is a relation, not a function:
/// what is drawn also depends on image files the document names, read from
/// disk while parsing.
pub uninterp spec fn drawn_by(before: Seq<u8>, svg: Seq<char>, after: Seq<u8>) -> bool;

/// A parsed SVG document, with the text it was parsed from.
struct SvgDoc {
    tree: resvg::usvg::Tree,
    source: Ghost<Seq<char>>,
}

/// `usvg::Tree::from_str` with `usvg::Options::default()`: parses SVG text,
/// succeeding exactly when `svg_parses` holds of it; the document records the
/// text. Nothing is stated of the tree it builds.
#[verifier::external_body]
fn parse_svg(text: &str) -> (r: Result<SvgDoc, resvg::usvg::Error>)
    ensures
        r is Ok <==> svg_parses(text@),
        r matches Ok(doc) ==> doc.source@ == text@,
{
    match resvg::usvg::Tree::from_str(text, &resvg::usvg::Options::default()) {
        Ok(tree) => Ok(SvgDoc { tree, source: Ghost(text@) }),
        Err(e) => Err(e),
    }
}

/// `ToString::to_string` on a `usvg::Error`: its display text, of which
/// nothing is stated.
#[verifier::external_body]
fn svg_error_text(e: &resvg::usvg::Error) -> (r: String) {
    e.to_string()
}

/// `tiny_skia::Pixmap::new`: a pixmap of transparent black (all bytes 0) of
/// `width * height * 4` bytes, or `None` exactly when the size is refused.
#[verifier::external_body]
fn new_pixmap(width: u32, height: u32) -> (r: Option<resvg::tiny_skia::Pixmap>)
    ensures
        r is Some <==> pixmap_size_ok(width, height),
        r matches Some(p) ==> pixmap_data(p) == Seq::new(
            (width * height * 4) as nat,
            |i: int| 0u8,
        ),
{
    resvg::tiny_skia::Pixmap::new(width, height)
}

/// `resvg::render` with the identity transform: draws the document's tree
/// onto the pixmap in place. The buffer keeps its size, and its new bytes are
/// ones that drawing the document's text onto the old bytes can give
/// (`drawn_by`); which pixels those are is not stated, as that is the whole
/// SVG renderer.
#[verifier::external_body]
fn render_tree(doc: &SvgDoc, pixmap: &mut resvg::tiny_skia::Pixmap)
    ensures
        pixmap_data(*final(pixmap)).len() == pixmap_data(*old(pixmap)).len(),
        drawn_by(pixmap_data(*old(pixmap)), doc.source@, pixmap_data(*final(pixmap))),
{
    resvg::render(&doc.tree, resvg::tiny_skia::Transform::identity(), &mut pixmap.as_mut())
}

/// `tiny_skia::Pixmap::take`: the pixmap's bytes.
#[verifier::external_body]
fn pixmap_into_bytes(pixmap: resvg::tiny_skia::Pixmap) -> (r: Vec<u8>)
    ensures
        r@ == pixmap_data(pixmap),
{
    pixmap.take()
}

/// The bytes of a fresh `ICON_SIZE` x `ICON_SIZE` pixmap: transparent black.
pub open spec fn blank_icon_bytes() -> Seq<u8> {
    Seq::new((ICON_SIZE * ICON_SIZE * 4) as nat, |i: int| 0u8)
}

/// A raster icon: `width * height` pixels of straight-alpha RGBA, row-major.
#[derive(Debug)]
pub struct RgbaIcon {
    pub rgba: Vec<u8>,
    pub width: u32,
    pub height: u32,
}

impl RgbaIcon {
    /// `ICON_SIZE` pixels square, with four bytes for each pixel.
    pub open spec fn is_tray_sized(&self) -> bool {
        &&& self.width == ICON_SIZE
        &&& self.height == ICON_SIZE
        &&& self.rgba@.len() == ICON_SIZE * ICON_SIZE * 4
    }

    /// Tray-sized, with pixels that are the straight-alpha form of bytes that
    /// drawing the SVG text `svg` onto a fresh, transparent `ICON_SIZE`-square
    /// pixmap can give.
    pub open spec fn is_rendered_from(&self, svg: Seq<char>) -> bool {
        &&& self.is_tray_sized()
        &&& exists|raw: Seq<u8>|
            drawn_by(blank_icon_bytes(), svg, raw) && self.rgba@ == unpremultiplied(raw)
    }

    /// The icon of the given size whose pixels are the premultiplied RGBA
    /// bytes `data` taken to straight alpha.
    pub fn from_premultiplied(data: &[u8], width: u32, height: u32) -> (icon: RgbaIcon)
        ensures
            icon.rgba@ == unpremultiplied(data@),
            icon.width == width,
            icon.height == height,
    {
        RgbaIcon { rgba: unpremultiply(data), width, height }
    }
}

/// The message of a rasterisation that failed because the SVG did not parse.
pub open spec fn is_parse_failure_message(m: Seq<char>) -> bool {
    let prefix = "Failed to parse SVG icon: "@;
    m.len() >= prefix.len() && m.take(prefix.len() as int) == prefix
}

/// Rasterise the SVG document `svg` at `ICON_SIZE` x `ICON_SIZE` and take it to
/// straight alpha. Fails with a message naming the parse error when the SVG
/// does not parse; the pixmap itself is always allocated.
pub fn rasterize(svg: &str) -> (r: Result<RgbaIcon, String>)
    ensures
        r is Ok <==> svg_parses(svg@),
        r matches Ok(icon) ==> icon.is_rendered_from(svg@),
        r matches Err(m) ==> is_parse_failure_message(m@),
{
    let doc = match parse_svg(svg) {
        Ok(d) => d,
        Err(e) => {
            let mut m = String::from_str("Failed to parse SVG icon: ");
            let detail = svg_error_text(&e);
            m.append(detail.as_str());
            proof {
                reveal_strlit("Failed to parse SVG icon: ");
                assert(m@.take("Failed to parse SVG icon: "@.len() as int)
                    =~= "Failed to parse SVG icon: "@);
            }
            return Err(m);
        },
    };
    let mut pixmap = match new_pixmap(ICON_SIZE, ICON_SIZE) {
        Some(p) => p,
        None => {
            proof {
                assert(pixmap_size_ok(ICON_SIZE, ICON_SIZE));
            }
            return Err(String::from_str("Failed to allocate icon pixmap"));
        },
    };
    proof {
        assert(pixmap_data(pixmap) =~= blank_icon_bytes());
    }
    render_tree(&doc, &mut pixmap);
    let data = pixmap_into_bytes(pixmap);
    let icon = RgbaIcon::from_premultiplied(data.as_slice(), ICON_SIZE, ICON_SIZE);
    proof {
        assert(data@.len() == ICON_SIZE * ICON_SIZE * 4);
        assert(icon.rgba@.len() == (data@.len() / 4) * 4);
        assert(drawn_by(blank_icon_bytes(), svg@, data@));
    }
    Ok(icon)
}

} // verus!
