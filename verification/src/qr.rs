//! QR encoding of YAML text for the playground (SVG + module matrix).
use vstd::prelude::*;
use vstd::string::*;

use qrcode::QrCode;

use crate::text::owned;

verus! {

#[verifier::external_type_specification]
#[verifier::external_body]
pub struct ExQrCode(qrcode::QrCode);

/// The error correction levels of `qrcode::EcLevel`.
#[derive(Clone, Copy, Debug, PartialEq, Eq, Structural)]
pub enum QrLevel {
    L,
    M,
    Q,
    H,
}

/// Medium error correction: about 15% redundancy.
pub const EC_LEVEL: QrLevel = QrLevel::M;

/// The modules of a QR code, row by row, `true` for dark.
pub uninterp spec fn qr_modules(code: QrCode) -> Seq<bool>;

/// The number of modules per side of a QR code.
pub uninterp spec fn qr_side(code: QrCode) -> nat;

/// What `QrCode::with_error_correction_level` makes of `data`: the side and
/// the modules of the smallest code, or the `Display` text of the error.
pub uninterp spec fn qr_encoding(data: Seq<u8>, level: QrLevel) -> Result<(nat, Seq<bool>), Seq<char>>;

/// The SVG that `qrcode`'s SVG renderer builds for a code with these modules
/// and these rendering options.
pub uninterp spec fn qr_svg_image(
    side: nat,
    modules: Seq<bool>,
    dark: Seq<char>,
    light: Seq<char>,
    min_width: u32,
    min_height: u32,
    quiet_zone: bool,
) -> Seq<char>;

/// `QrCode::with_error_correction_level(text.as_bytes(), level)`.  The outcome
/// is named; what the source shows besides: a code has `side * side` modules
/// and a side between 21 and 177 (QR versions 1 to 40).
#[verifier::external_body]
fn qr_new(text: &str, level: QrLevel) -> (r: Result<QrCode, String>)
    ensures
        match r {
            Ok(code) => {
                &&& qr_encoding(text.spec_bytes(), level) == Ok::<(nat, Seq<bool>), Seq<char>>(
                    (qr_side(code), qr_modules(code)),
                )
                &&& qr_modules(code).len() == qr_side(code) * qr_side(code)
                &&& 21 <= qr_side(code) <= 177
            },
            Err(e) => qr_encoding(text.spec_bytes(), level) == Err::<(nat, Seq<bool>), Seq<char>>(e@),
        },
{
    let ec = match level {
        QrLevel::L => qrcode::EcLevel::L,
        QrLevel::M => qrcode::EcLevel::M,
        QrLevel::Q => qrcode::EcLevel::Q,
        QrLevel::H => qrcode::EcLevel::H,
    };
    match QrCode::with_error_correction_level(text.as_bytes(), ec) {
        Ok(code) => Ok(code),
        Err(error) => Err(error.to_string()),
    }
}

/// `QrCode::width`.
#[verifier::external_body]
fn qr_width(code: &QrCode) -> (w: usize)
    ensures
        w == qr_side(*code),
{
    code.width()
}

/// `code[(x, y)] == qrcode::Color::Dark` (`Index` panics outside the code).
#[verifier::external_body]
fn qr_is_dark(code: &QrCode, x: usize, y: usize) -> (r: bool)
    requires
        x < qr_side(*code),
        y < qr_side(*code),
        qr_modules(*code).len() == qr_side(*code) * qr_side(*code),
    ensures
        r == qr_modules(*code)[y * qr_side(*code) + x],
{
    code[(x, y)] == qrcode::Color::Dark
}

/// The builder chain of `qrcode`'s SVG renderer: `render`, `dark_color`,
/// `light_color`, `min_dimensions`, `quiet_zone` and `build`; the SVG is named.
/// The renderer computes pixel sizes in `u32`, so the minimum dimensions are
/// bounded well below overflow.
#[verifier::external_body]
fn qr_svg(code: &QrCode, dark: &str, light: &str, min_width: u32, min_height: u32, quiet_zone: bool) -> (svg: String)
    requires
        min_width <= 1048576,
        min_height <= 1048576,
    ensures
        svg@ == qr_svg_image(
            qr_side(*code),
            qr_modules(*code),
            dark@,
            light@,
            min_width,
            min_height,
            quiet_zone,
        ),
{
    code.render::<qrcode::render::svg::Color<'_>>().dark_color(
        qrcode::render::svg::Color(dark),
    ).light_color(qrcode::render::svg::Color(light)).min_dimensions(min_width, min_height).quiet_zone(
        quiet_zone,
    ).build()
}

/// The QR code of `text` at medium error correction; empty text has none.
pub fn qr_code(text: &str) -> (r: Result<QrCode, String>)
    ensures
        match r {
            Ok(code) => {
                &&& text@.len() > 0
                &&& qr_encoding(text.spec_bytes(), EC_LEVEL) == Ok::<(nat, Seq<bool>), Seq<char>>(
                    (qr_side(code), qr_modules(code)),
                )
                &&& qr_modules(code).len() == qr_side(code) * qr_side(code)
                &&& 21 <= qr_side(code) <= 177
            },
            Err(e) => if text@.len() == 0 {
                e@ == "empty"@
            } else {
                qr_encoding(text.spec_bytes(), EC_LEVEL) == Err::<(nat, Seq<bool>), Seq<char>>(e@)
            },
        },
{
    if text.is_empty() {
        return Err(owned("empty"));
    }
    qr_new(text, EC_LEVEL)
}

/// A rendered QR code.
#[derive(Clone, Debug)]
pub struct QrImage {
    pub svg: String,
    /// Row-major, `true` is a dark module.
    pub modules: Vec<bool>,
    pub width: usize,
}

/// The SVG and module matrix of the QR code of `text` (black on white, at
/// least 512 by 512, with a quiet zone).
pub fn encode(text: &str) -> (r: Result<QrImage, String>)
    ensures
        match r {
            Ok(image) => {
                &&& text@.len() > 0
                &&& qr_encoding(text.spec_bytes(), EC_LEVEL) == Ok::<(nat, Seq<bool>), Seq<char>>(
                    (image.width as nat, image.modules@),
                )
                &&& image.modules@.len() == image.width * image.width
                &&& image.width >= 21
                &&& image.svg@ == qr_svg_image(
                    image.width as nat,
                    image.modules@,
                    "#000000"@,
                    "#ffffff"@,
                    512,
                    512,
                    true,
                )
            },
            Err(e) => if text@.len() == 0 {
                e@ == "empty"@
            } else {
                qr_encoding(text.spec_bytes(), EC_LEVEL) == Err::<(nat, Seq<bool>), Seq<char>>(e@)
            },
        },
{
    let code = qr_code(text)?;
    let width = qr_width(&code);
    let mut modules: Vec<bool> = Vec::new();
    let mut y: usize = 0;
    while y < width
        invariant
            width == qr_side(code),
            width <= 177,
            qr_modules(code).len() == width * width,
            y <= width,
            modules@ == qr_modules(code).take(y * width),
        decreases width - y,
    {
        let mut x: usize = 0;
        while x < width
            invariant
                width == qr_side(code),
                width <= 177,
                qr_modules(code).len() == width * width,
                y < width,
                x <= width,
                modules@ == qr_modules(code).take(y * width + x),
            decreases width - x,
        {
            proof {
                assert(y * width + x < width * width) by (nonlinear_arith)
                    requires
                        y < width,
                        x < width,
                ;
            }
            let dark = qr_is_dark(&code, x, y);
            assert(qr_modules(code).take(y * width + x + 1) == qr_modules(code).take(y * width + x).push(
                qr_modules(code)[y * width + x],
            ));
            modules.push(dark);
            x = x + 1;
        }
        assert(y * width + width == (y + 1) * width) by (nonlinear_arith);
        y = y + 1;
    }
    assert(qr_modules(code).take(width * width) == qr_modules(code));
    let svg = qr_svg(&code, "#000000", "#ffffff", 512, 512, true);
    Ok(QrImage { svg, modules, width })
}

/// Whether `text` has a QR code.
pub fn can_encode(text: &str) -> (r: bool)
    ensures
        r == (text@.len() > 0 && qr_encoding(text.spec_bytes(), EC_LEVEL) is Ok),
{
    qr_code(text).is_ok()
}

} // verus!
