use crate::store::sanitize_name;
use crate::text::{
    ascii_lower_seq, decimal, decimal_digits, push_decimal, has_prefix, has_suffix, same_text, starts_with,
    ends_with, to_ascii_lowercase, trim, trimmed,
};
use vstd::prelude::*;

verus! {

/// What was read from the laptop's clipboard.
pub enum ClipGet {
    Text(String),
    /// A picture, PNG-encoded.
    Png { png: Vec<u8> },
}

/// The picture formats that a picture from the phone may come in.
#[derive(Debug, Clone, Copy, PartialEq, Eq, Structural)]
pub enum PictureFormat {
    Png,
    Jpeg,
    WebP,
    Gif,
    Bmp,
}

/// A picture as RGBA bytes: four bytes per pixel, row by row.
pub struct RgbaPixels {
    pub width: u32,
    pub height: u32,
    pub data: Vec<u8>,
}

impl RgbaPixels {
    /// The bytes are exactly the pixels.
    pub open spec fn wf(&self) -> bool {
        self.data@.len() == 4 * self.width * self.height
    }
}

/// The longest side that a picture put on the clipboard may have.
pub const MAX_SIDE: u32 = 2560;

// ---------------------------------------------------------------------------
// Outside calls: base64
// ---------------------------------------------------------------------------

/// What the standard padded base64 engine decodes the text to, or, where it refuses
/// the text, the `Display` text of its error.
pub uninterp spec fn base64_decoding(text: Seq<char>) -> Result<Seq<u8>, Seq<char>>;

/// What the standard padded base64 engine encodes the bytes to.
pub uninterp spec fn base64_encoding(bytes: Seq<u8>) -> Seq<char>;

/// `base64::engine::general_purpose::STANDARD.decode`, with an error turned into its
/// `Display` text: the result is the named decoding of the text.
#[verifier::external_body]
fn base64_decode(text: &str) -> (r: Result<Vec<u8>, String>)
    ensures
        match r {
            Ok(v) => base64_decoding(text@) matches Ok(b) && b == v@,
            Err(m) => base64_decoding(text@) matches Err(e) && e == m@,
        },
{
    match base64::Engine::decode(&base64::engine::general_purpose::STANDARD, text) {
        Ok(v) => Ok(v),
        Err(e) => Err(e.to_string()),
    }
}

/// Whether the text decodes to exactly these bytes.
pub open spec fn base64_round_trip(text: Seq<char>, bytes: Seq<u8>) -> bool {
    base64_decoding(text) == Ok::<Seq<u8>, Seq<char>>(bytes)
}

/// `base64::engine::general_purpose::STANDARD.encode`: the named encoding of the
/// bytes, which the same engine decodes back to the bytes (it writes canonical,
/// padded base64, which its decoder accepts). It panics only where the encoded
/// length overflows `usize`, which no slice of at most `isize::MAX` bytes reaches.
#[verifier::external_body]
pub(crate) fn base64_encode(bytes: &[u8]) -> (s: String)
    requires
        bytes@.len() <= isize::MAX,
    ensures
        s@ == base64_encoding(bytes@),
        base64_round_trip(s@, bytes@),
{
    base64::Engine::encode(&base64::engine::general_purpose::STANDARD, bytes)
}

// ---------------------------------------------------------------------------
// Outside calls: image
// ---------------------------------------------------------------------------

/// What `image` decodes the bytes in the format to, as width, height and RGBA bytes,
/// or, where it refuses them, the `Display` text of its error.
pub uninterp spec fn rgba_decoding(bytes: Seq<u8>, format: PictureFormat) -> Result<(u32, u32, Seq<u8>), Seq<char>>;

/// `image::load_from_memory_with_format` followed by `to_rgba8`, with an error turned
/// into its `Display` text: the result is the named decoding, and the RGBA buffer
/// that `to_rgba8` allocates holds exactly four bytes per pixel.
#[verifier::external_body]
fn decode_picture(bytes: &[u8], format: PictureFormat) -> (r: Result<RgbaPixels, String>)
    ensures
        match r {
            Ok(p) => rgba_decoding(bytes@, format) matches Ok(d) && d == (p.width, p.height, p.data@) && p.wf(),
            Err(m) => rgba_decoding(bytes@, format) matches Err(e) && e == m@,
        },
{
    let f = match format {
        PictureFormat::Png => image::ImageFormat::Png,
        PictureFormat::Jpeg => image::ImageFormat::Jpeg,
        PictureFormat::WebP => image::ImageFormat::WebP,
        PictureFormat::Gif => image::ImageFormat::Gif,
        PictureFormat::Bmp => image::ImageFormat::Bmp,
    };
    match image::load_from_memory_with_format(bytes, f) {
        Ok(img) => {
            let rgba = img.to_rgba8();
            Ok(RgbaPixels { width: rgba.width(), height: rgba.height(), data: rgba.into_raw() })
        },
        Err(e) => Err(e.to_string()),
    }
}

/// What `image::imageops::resize` with the triangle filter makes of the picture at
/// the new size.
pub uninterp spec fn triangle_resampling(
    width: u32,
    height: u32,
    data: Seq<u8>,
    new_width: u32,
    new_height: u32,
) -> Seq<u8>;

/// `image::imageops::resize(.., FilterType::Triangle)`: a picture of exactly the new
/// size, whose bytes are the named resampling.
#[verifier::external_body]
fn resize_triangle(p: &RgbaPixels, new_width: u32, new_height: u32) -> (r: RgbaPixels)
    requires
        p.wf(),
    ensures
        r.width == new_width,
        r.height == new_height,
        r.wf(),
        r.data@ == triangle_resampling(p.width, p.height, p.data@, new_width, new_height),
{
    let img = image::RgbaImage::from_raw(p.width, p.height, p.data.clone()).unwrap_or_default();
    let out = image::imageops::resize(
        &img,
        new_width,
        new_height,
        image::imageops::FilterType::Triangle,
    );
    RgbaPixels { width: out.width(), height: out.height(), data: out.into_raw() }
}

/// What `image` writes for an RGBA picture in the PNG format.
pub uninterp spec fn png_encoding(width: u32, height: u32, data: Seq<u8>) -> Seq<u8>;

/// The largest RGBA buffer, in bytes, that `image` decodes with its default limits.
pub open spec fn decode_limit() -> nat {
    512 * 1024 * 1024
}

/// Whether PNG bytes decode back to the picture, where the picture is within the
/// decoding limit.
pub open spec fn png_round_trip(png: Seq<u8>, width: u32, height: u32, data: Seq<u8>) -> bool {
    4 * width * height <= decode_limit() ==> rgba_decoding(png, PictureFormat::Png) == Ok::<
        (u32, u32, Seq<u8>),
        Seq<char>,
    >((width, height, data))
}

/// `DynamicImage::write_to(.., ImageFormat::Png)` on the picture: the bytes written
/// are the named encoding (an encoder error is dropped, leaving what was written).
/// The encoder writes the pixels as an 8-bit RGBA PNG, which is lossless, so where
/// the picture is within `image`'s default decoding limit (`decode_limit` bytes of
/// RGBA), decoding the bytes as PNG into RGBA gives the picture back; beyond it the
/// decoder refuses, and nothing is stated.
#[verifier::external_body]
fn png_encode(width: u32, height: u32, data: &[u8]) -> (png: Vec<u8>)
    requires
        width >= 1,
        height >= 1,
        data@.len() == 4 * width * height,
    ensures
        png@ == png_encoding(width, height, data@),
        png_round_trip(png@, width, height, data@),
{
    let img = image::RgbaImage::from_raw(width, height, data.to_vec()).unwrap_or_default();
    let mut out: Vec<u8> = Vec::new();
    let _ = image::DynamicImage::ImageRgba8(img).write_to(
        &mut std::io::Cursor::new(&mut out),
        image::ImageFormat::Png,
    );
    out
}


// ---------------------------------------------------------------------------
// Pictures for the clipboard
// ---------------------------------------------------------------------------

/// The picture format that a (lower-case) MIME type names.
pub open spec fn picture_format(mime: Seq<char>) -> Option<PictureFormat> {
    if mime == "image/png"@ {
        Some(PictureFormat::Png)
    } else if mime == "image/jpeg"@ || mime == "image/jpg"@ {
        Some(PictureFormat::Jpeg)
    } else if mime == "image/webp"@ {
        Some(PictureFormat::WebP)
    } else if mime == "image/gif"@ {
        Some(PictureFormat::Gif)
    } else if mime == "image/bmp"@ {
        Some(PictureFormat::Bmp)
    } else {
        None
    }
}

pub fn picture_format_for(mime: &str) -> (f: Option<PictureFormat>)
    ensures
        f == picture_format(mime@),
{
    if same_text(mime, "image/png") {
        Some(PictureFormat::Png)
    } else if same_text(mime, "image/jpeg") || same_text(mime, "image/jpg") {
        Some(PictureFormat::Jpeg)
    } else if same_text(mime, "image/webp") {
        Some(PictureFormat::WebP)
    } else if same_text(mime, "image/gif") {
        Some(PictureFormat::Gif)
    } else if same_text(mime, "image/bmp") {
        Some(PictureFormat::Bmp)
    } else {
        None
    }
}

/// `num / den` rounded to the nearest whole number, halves rounded up.
pub open spec fn rounded_quotient(num: nat, den: nat) -> nat {
    ((2 * num + den) / (2 * den)) as nat
}

/// The size a picture is scaled to before it goes on the clipboard: unchanged where
/// neither side exceeds `MAX_SIDE`, else the longer side becomes `MAX_SIDE` and the
/// other keeps the proportion, rounded to the nearest pixel and at least 1.
pub open spec fn fitted_size(w: nat, h: nat) -> (nat, nat) {
    if w <= MAX_SIDE && h <= MAX_SIDE {
        (w, h)
    } else if w >= h {
        let s = rounded_quotient(h * (MAX_SIDE as nat), w);
        (MAX_SIDE as nat, if s >= 1 { s } else { 1 })
    } else {
        let s = rounded_quotient(w * (MAX_SIDE as nat), h);
        (if s >= 1 { s } else { 1 }, MAX_SIDE as nat)
    }
}

proof fn lemma_rounded_at_most_side(short: nat, long: nat)
    requires
        0 < long,
        short <= long,
    ensures
        rounded_quotient(short * 2560, long) <= 2560,
{
    assert((2 * (short * 2560) + long) / (2 * long) <= 2560) by (nonlinear_arith)
        requires
            0 < long,
            short <= long,
    ;
}

proof fn lemma_rounded_bracket(num: nat, den: nat)
    requires
        den > 0,
    ensures
        2 * den * rounded_quotient(num, den) <= 2 * num + den < 2 * den * rounded_quotient(num, den)
            + 2 * den,
{
    let q = (2 * num + den) / (2 * den);
    assert(2 * den * q <= 2 * num + den < 2 * den * q + 2 * den) by (nonlinear_arith)
        requires
            den > 0,
            q == (2 * num + den) / (2 * den),
    ;
}

/// Pictures go on the clipboard at most `MAX_SIDE` pixels on a side: one that fits
/// is left as it is; a larger one gets `MAX_SIDE` on its longer side, and its other
/// side is the proportional length rounded to the nearest pixel (within half a pixel
/// of `short * MAX_SIDE / long`), at least 1 and at most `MAX_SIDE`.
pub proof fn law_fitted_size(w: nat, h: nat)
    ensures
        w <= MAX_SIDE && h <= MAX_SIDE ==> fitted_size(w, h) == (w, h),
        !(w <= MAX_SIDE && h <= MAX_SIDE) ==> {
            let (nw, nh) = fitted_size(w, h);
            let (long, short, other) = if w >= h {
                (w, h, nh)
            } else {
                (h, w, nw)
            };
            let s = rounded_quotient(short * MAX_SIDE as nat, long);
            &&& (if w >= h {
                nw
            } else {
                nh
            }) == MAX_SIDE
            &&& 1 <= other <= MAX_SIDE
            &&& other == (if s >= 1 {
                s
            } else {
                1
            })
            &&& 2 * long * s <= 2 * short * MAX_SIDE + long < 2 * long * s + 2 * long
        },
{
    if !(w <= MAX_SIDE && h <= MAX_SIDE) {
        if w >= h {
            lemma_rounded_at_most_side(h, w);
            lemma_rounded_bracket(h * MAX_SIDE as nat, w);
        } else {
            lemma_rounded_at_most_side(w, h);
            lemma_rounded_bracket(w * MAX_SIDE as nat, h);
        }
    }
}

/// The scaled size of a `w` by `h` picture.
pub fn fit_size(w: u32, h: u32) -> (r: (u32, u32))
    ensures
        (r.0 as nat, r.1 as nat) == fitted_size(w as nat, h as nat),
{
    if w <= MAX_SIDE && h <= MAX_SIDE {
        (w, h)
    } else if w >= h {
        proof {
            lemma_rounded_at_most_side(h as nat, w as nat);
        }
        let num: u64 = h as u64 * 2560;
        let s: u64 = (2 * num + w as u64) / (2 * w as u64);
        let s32 = s as u32;
        (MAX_SIDE, if s32 >= 1 { s32 } else { 1 })
    } else {
        proof {
            lemma_rounded_at_most_side(w as nat, h as nat);
        }
        let num: u64 = w as u64 * 2560;
        let s: u64 = (2 * num + h as u64) / (2 * h as u64);
        let s32 = s as u32;
        (if s32 >= 1 { s32 } else { 1 }, MAX_SIDE)
    }
}


/// `n`, or 1 where `n` is 0.
pub open spec fn at_least_one(n: u32) -> u32 {
    if n >= 1 {
        n
    } else {
        1
    }
}

/// The PNG bytes for an RGBA buffer said to be `width` by `height` (each taken as
/// at least 1): the picture itself where the buffer holds exactly its pixels, else a
/// single transparent black pixel.
pub open spec fn png_for(width: u32, height: u32, rgba: Seq<u8>) -> Seq<u8> {
    let w = at_least_one(width);
    let h = at_least_one(height);
    if rgba.len() == 4 * w * h {
        png_encoding(w, h, rgba)
    } else {
        png_encoding(1, 1, seq![0u8, 0u8, 0u8, 0u8])
    }
}

/// The picture that `png_for` encodes: the buffer at the given size (each side at
/// least 1) where it holds exactly its pixels, else one transparent black pixel.
pub open spec fn png_picture(width: u32, height: u32, rgba: Seq<u8>) -> (u32, u32, Seq<u8>) {
    let w = at_least_one(width);
    let h = at_least_one(height);
    if rgba.len() == 4 * w * h {
        (w, h, rgba)
    } else {
        (1u32, 1u32, seq![0u8, 0u8, 0u8, 0u8])
    }
}

/// `png_round_trip` for a picture given as width, height and RGBA bytes.
pub open spec fn decodes_as_png(png: Seq<u8>, pic: (u32, u32, Seq<u8>)) -> bool {
    png_round_trip(png, pic.0, pic.1, pic.2)
}

/// PNG-encodes an RGBA buffer; within `image`'s decoding limit the PNG decodes back
/// to `png_picture`. A buffer longer than the picture is left out: on it the encoder
/// panics.
pub fn encode_png(width: u32, height: u32, rgba: &[u8]) -> (png: Vec<u8>)
    requires
        rgba@.len() <= 4 * at_least_one(width) * at_least_one(height),
    ensures
        png@ == png_for(width, height, rgba@),
        decodes_as_png(png@, png_picture(width, height, rgba@)),
{
    let w: u32 = if width >= 1 {
        width
    } else {
        1
    };
    let h: u32 = if height >= 1 {
        height
    } else {
        1
    };
    assert((w as int) * (h as int) <= 0xffff_ffff * 0xffff_ffff) by (nonlinear_arith)
        requires
            w <= 0xffff_ffff,
            h <= 0xffff_ffff,
    ;
    let need: u128 = 4 * ((w as u128) * (h as u128));
    assert(need == 4 * w * h) by (nonlinear_arith)
        requires
            need == 4 * ((w as int) * (h as int)),
    ;
    if rgba.len() as u128 == need {
        png_encode(w, h, rgba)
    } else {
        let blank: Vec<u8> = vec![0u8, 0u8, 0u8, 0u8];
        assert(blank@ == seq![0u8, 0u8, 0u8, 0u8]);
        png_encode(1, 1, blank.as_slice())
    }
}

/// What `clip` makes of a clipboard picture: `None` where its PNG bytes are empty,
/// else those bytes, which decode back to the picture they were made from.
pub open spec fn clip_picture(width: usize, height: usize, bytes: Seq<u8>, r: Option<ClipGet>) -> bool {
    let png = png_for(width as u32, height as u32, bytes);
    &&& if png.len() == 0 {
        r is None
    } else {
        r matches Some(ClipGet::Png { png: p }) && p@ == png
    }
    &&& r matches Some(ClipGet::Png { png: p }) ==> decodes_as_png(
        p@,
        png_picture(width as u32, height as u32, bytes),
    )
}

/// A clipboard picture reaches the phone as it is: where its buffer holds exactly
/// its `width * height` RGBA pixels (and is within `image`'s decoding limit), the PNG
/// handed over decodes to a picture of that width and height with the same bytes.
pub proof fn law_clip_png_is_the_picture(width: usize, height: usize, bytes: Seq<u8>, r: Option<ClipGet>)
    requires
        1 <= width <= u32::MAX,
        1 <= height <= u32::MAX,
        bytes.len() == 4 * width * height,
        4 * width * height <= decode_limit(),
        clip_picture(width, height, bytes, r),
    ensures
        r matches Some(ClipGet::Png { png: p }) ==> (rgba_decoding(p@, PictureFormat::Png) matches Ok(d)
            && d == (width as u32, height as u32, bytes)),
{
    let w = width as u32;
    let h = height as u32;
    assert(at_least_one(w) == width);
    assert(at_least_one(h) == height);
    assert(png_picture(w, h, bytes) == (w, h, bytes));
}

/// The clipboard's picture, PNG-encoded for the phone; `None` where encoding gave
/// nothing. The sizes are cut to 32 bits as the encoder takes them.
pub fn clip_from_image(width: usize, height: usize, bytes: &[u8]) -> (r: Option<ClipGet>)
    requires
        bytes@.len() <= 4 * at_least_one(width as u32) * at_least_one(height as u32),
    ensures
        clip_picture(width, height, bytes@, r),
{
    let png = encode_png(width as u32, height as u32, bytes);
    if png.len() == 0 {
        None
    } else {
        Some(ClipGet::Png { png })
    }
}

/// The clipboard's text, where it is not empty.
pub fn clip_from_text(text: Option<String>) -> (r: Option<ClipGet>)
    ensures
        match text {
            Some(t) => if t@.len() > 0 {
                r matches Some(ClipGet::Text(u)) && u == t
            } else {
                r is None
            },
            None => r is None,
        },
{
    match text {
        Some(t) => {
            if t.as_str().is_empty() {
                None
            } else {
                Some(ClipGet::Text(t))
            }
        },
        None => None,
    }
}

/// The picture that goes on the clipboard for decoded bytes in a format: scaled
/// down to `fitted_size` where a side exceeds `MAX_SIDE`; or the decoder's error text.
pub open spec fn clipboard_picture(raw: Seq<u8>, format: PictureFormat) -> Result<(nat, nat, Seq<u8>), Seq<char>> {
    match rgba_decoding(raw, format) {
        Err(e) => Err(e),
        Ok((w, h, px)) => {
            let (nw, nh) = fitted_size(w as nat, h as nat);
            if w <= MAX_SIDE && h <= MAX_SIDE {
                Ok((w as nat, h as nat, px))
            } else {
                Ok((nw, nh, triangle_resampling(w, h, px, nw as u32, nh as u32)))
            }
        },
    }
}

/// Pictures keep their shape on the clipboard: one that fits is unchanged; a larger
/// one gets `MAX_SIDE` on the side that is the longer one in the decoded picture (the
/// width when `w >= h`, else the height), the other side is `short * MAX_SIDE / long`
/// rounded to the nearest pixel (at least 1), so a portrait picture stays portrait
/// and a landscape one landscape, and its pixels are the triangle resampling of the
/// decoded ones at that size.
pub proof fn law_clipboard_picture_keeps_shape(raw: Seq<u8>, format: PictureFormat, w: u32, h: u32, px: Seq<u8>)
    requires
        rgba_decoding(raw, format) matches Ok(d) && d == (w, h, px),
    ensures
        clipboard_picture(raw, format) is Ok,
        clipboard_picture(raw, format) matches Ok((nw, nh, out)) ==> {
            &&& (w <= MAX_SIDE && h <= MAX_SIDE ==> nw == w && nh == h && out == px)
            &&& (!(w <= MAX_SIDE && h <= MAX_SIDE) && w >= h ==> {
                &&& nw == MAX_SIDE
                &&& 1 <= nh <= MAX_SIDE
                &&& 2 * h * MAX_SIDE + w < 2 * w * nh + 2 * w
                &&& (nh == 1 || 2 * w * nh <= 2 * h * MAX_SIDE + w)
            })
            &&& (!(w <= MAX_SIDE && h <= MAX_SIDE) && w < h ==> {
                &&& nh == MAX_SIDE
                &&& 1 <= nw <= MAX_SIDE
                &&& 2 * w * MAX_SIDE + h < 2 * h * nw + 2 * h
                &&& (nw == 1 || 2 * h * nw <= 2 * w * MAX_SIDE + h)
            })
            &&& (!(w <= MAX_SIDE && h <= MAX_SIDE) ==> out == triangle_resampling(w, h, px, nw as u32, nh as u32))
            &&& (w >= h ==> nw >= nh)
            &&& (w <= h ==> nw <= nh)
        },
{
    law_fitted_size(w as nat, h as nat);
    let (fw, fh) = fitted_size(w as nat, h as nat);
    if !(w <= MAX_SIDE && h <= MAX_SIDE) {
        if w >= h {
            let s = rounded_quotient((h as nat) * (MAX_SIDE as nat), w as nat);
            assert(2 * w * s <= 2 * w * fh) by (nonlinear_arith)
                requires
                    s <= fh,
            ;
            if w == h {
                assert(s == 2560) by (nonlinear_arith)
                    requires
                        w > 0,
                        2 * w * s <= 2 * w * 2560 + w,
                        2 * w * 2560 + w < 2 * w * s + 2 * w,
                ;
            }
        } else {
            let s = rounded_quotient((w as nat) * (MAX_SIDE as nat), h as nat);
            assert(2 * h * s <= 2 * h * fw) by (nonlinear_arith)
                requires
                    s <= fw,
            ;
        }
    }
}

/// Decodes a base64 picture from the phone into RGBA for the clipboard, scaling very
/// large pictures down. Errors: `"base64: .."` where the (trimmed) text is not
/// base64, `"unsupported mime <mime>"` (lower-cased) for a type other than PNG,
/// JPEG, WebP, GIF or BMP, and `"decode: .."` where the bytes are not such a picture,
/// each followed by the decoder's error text.
pub fn decode_to_rgba(mime: &str, data_b64: &str) -> (r: Result<(usize, usize, Vec<u8>), String>)
    ensures
        base64_decoding(trimmed(data_b64@)) matches Err(e) ==> (r matches Err(m) && m@ == "base64: "@ + e),
        base64_decoding(trimmed(data_b64@)) matches Ok(raw) ==> {
            let lower = ascii_lower_seq(mime@);
            match picture_format(lower) {
                None => r matches Err(m) && m@ == "unsupported mime "@ + lower,
                Some(f) => match clipboard_picture(raw, f) {
                    Err(e) => r matches Err(m) && m@ == "decode: "@ + e,
                    Ok((w, h, px)) => r matches Ok((rw, rh, out)) && rw == w && rh == h && out@ == px,
                },
            }
        },
        r matches Ok((w, h, out)) ==> out@.len() == 4 * w * h && w <= MAX_SIDE && h <= MAX_SIDE,
{
    let raw = match base64_decode(trim(data_b64)) {
        Ok(v) => v,
        Err(text) => {
            let mut m = String::from_str("base64: ");
            m.append(text.as_str());
            return Err(m);
        },
    };
    let lower = to_ascii_lowercase(mime);
    let format = match picture_format_for(lower.as_str()) {
        Some(f) => f,
        None => {
            let mut m = String::from_str("unsupported mime ");
            m.append(lower.as_str());
            return Err(m);
        },
    };
    let pic = match decode_picture(raw.as_slice(), format) {
        Ok(p) => p,
        Err(text) => {
            let mut m = String::from_str("decode: ");
            m.append(text.as_str());
            return Err(m);
        },
    };
    let pic = if pic.width > MAX_SIDE || pic.height > MAX_SIDE {
        let (nw, nh) = fit_size(pic.width, pic.height);
        proof {
            law_fitted_size(pic.width as nat, pic.height as nat);
        }
        resize_triangle(&pic, nw, nh)
    } else {
        pic
    };
    Ok((pic.width as usize, pic.height as usize, pic.data))
}

// ---------------------------------------------------------------------------
// Temporary clipboard files
// ---------------------------------------------------------------------------

/// Whether a file name is that of a temporary picture handed to the clipboard tool.
pub fn is_clip_temp_name(name: &str) -> (b: bool)
    ensures
        b == (has_prefix(name@, "sender-clip-"@) && has_suffix(name@, ".png"@)),
{
    starts_with(name, "sender-clip-") && ends_with(name, ".png")
}

/// The name of the temporary file that hands a picture to the clipboard tool,
/// stamped with the time in nanoseconds: `sender-clip-<stamp>.png`. Such names are
/// the ones `is_clip_temp_name` recognises, so stale ones are cleaned up.
pub fn clip_temp_file_name(stamp: u128) -> (name: String)
    ensures
        name@ == "sender-clip-"@ + decimal_digits(stamp as nat) + ".png"@,
        has_prefix(name@, "sender-clip-"@) && has_suffix(name@, ".png"@),
{
    let mut name = String::from_str("sender-clip-");
    push_decimal(&mut name, stamp);
    name.append(".png");
    let ghost a = "sender-clip-"@;
    let ghost b = decimal_digits(stamp as nat);
    let ghost c = ".png"@;
    assert((a + b + c).take(a.len() as int) == a);
    assert((a + b + c).skip((a + b + c).len() - c.len()) == c);
    name
}

/// The shell command that hands the picture file at `path` to `wl-copy`, detached so
/// that it keeps serving the clipboard after this program ends.
pub fn wl_copy_command(path: &str) -> (cmd: String)
    ensures
        cmd@ == "setsid wl-copy -t image/png < '"@ + path@ + "' >/dev/null 2>&1 &"@,
{
    let mut cmd = String::from_str("setsid wl-copy -t image/png < '");
    cmd.append(path);
    cmd.append("' >/dev/null 2>&1 &");
    cmd
}

/// How old, in seconds, a temporary file must be to be removed.
pub const STALE_AFTER_SECS: u64 = 600;

/// Whether a file last modified at `modified` (seconds since the epoch; a file whose
/// time cannot be read counts as modified now) is older than ten minutes at `now`.
pub fn is_stale(now: u64, modified: Option<u64>) -> (b: bool)
    ensures
        b == (match modified {
            Some(m) => now > m && now - m > STALE_AFTER_SECS,
            None => false,
        }),
{
    let age = match modified {
        Some(m) => m,
        None => now,
    };
    let elapsed = if now > age {
        now - age
    } else {
        0
    };
    elapsed > STALE_AFTER_SECS
}

// ---------------------------------------------------------------------------
// Pictures from the phone
// ---------------------------------------------------------------------------

/// The largest picture, in decoded bytes, that is accepted from the phone.
pub const MAX_IMAGE_BYTES: usize = 25 * 1024 * 1024;

/// Accepts decoded picture bytes from the phone unless they exceed 25 MiB, with the
/// file name `<ts>-<sanitized name>` to save them under.
pub fn admit_image(name: &str, raw: Vec<u8>, ts: u64) -> (r: Result<(String, Vec<u8>), String>)
    ensures
        raw@.len() > MAX_IMAGE_BYTES ==> (r matches Err(m) && m@ == "image too large"@),
        raw@.len() <= MAX_IMAGE_BYTES ==> (r matches Ok((file, bytes)) && bytes == raw && file@
            == decimal_digits(ts as nat) + "-"@ + crate::store::sanitized(name@)),
{
    if raw.len() > MAX_IMAGE_BYTES {
        return Err(String::from_str("image too large"));
    }
    let mut file = decimal(ts);
    file.append("-");
    file.append(sanitize_name(name).as_str());
    Ok((file, raw))
}

/// Checks a base64 picture from the phone before it is saved: the decoded bytes and
/// the file name `<ts>-<sanitized name>` to save them under. Errors: `"base64: .."`
/// where the (trimmed) text is not base64 (followed by the decoder's error text),
/// `"image too large"` beyond 25 MiB.
pub fn prepare_image(name: &str, data_b64: &str, ts: u64) -> (r: Result<(String, Vec<u8>), String>)
    ensures
        base64_decoding(trimmed(data_b64@)) matches Err(e) ==> (r matches Err(m) && m@ == "base64: "@ + e),
        base64_decoding(trimmed(data_b64@)) matches Ok(raw) ==> if raw.len() > MAX_IMAGE_BYTES {
            r matches Err(m) && m@ == "image too large"@
        } else {
            r matches Ok((file, bytes)) && bytes@ == raw && file@ == decimal_digits(ts as nat) + "-"@
                + crate::store::sanitized(name@)
        },
{
    let raw = match base64_decode(trim(data_b64)) {
        Ok(v) => v,
        Err(text) => {
            let mut m = String::from_str("base64: ");
            m.append(text.as_str());
            return Err(m);
        },
    };
    admit_image(name, raw, ts)
}

/// The log line for a picture from the phone that was saved at `path` (`bytes`
/// long), saying whether it also reached the clipboard.
pub fn image_saved_note(path: &str, bytes: usize, clip_ok: bool) -> (line: String)
    ensures
        line@ == "phone ▸ [image] saved "@ + path@ + " ("@ + decimal_digits((bytes / 1024) as nat)
            + " KB), "@ + (if clip_ok {
            "clipboard ✓"@
        } else {
            "CLIPBOARD ✗"@
        }),
{
    let mut line = String::from_str("phone ▸ [image] saved ");
    line.append(path);
    line.append(" (");
    line.append(decimal((bytes / 1024) as u64).as_str());
    line.append(" KB), ");
    if clip_ok {
        line.append("clipboard ✓");
    } else {
        line.append("CLIPBOARD ✗");
    }
    line
}

/// The log line for a picture from the phone that could not be handled.
pub fn image_failed_note(why: &str) -> (line: String)
    ensures
        line@ == "✗ image failed: "@ + why@,
{
    let mut line = String::from_str("✗ image failed: ");
    line.append(why);
    line
}

} // verus!
